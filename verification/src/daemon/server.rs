//! The daemon's own failures, its socket path, and its service loop.

use vstd::prelude::*;

use crate::daemon::owners::{CreationFlightOwner, FlightsView};
use crate::daemon::upgrade::UpgradeAbort;
use crate::identity::{lemma_uuid_text_is_hexadecimal, DaemonInstanceId, RunId};
use crate::order::text_not_after;
use crate::run_spec::pairs_view;
use crate::text::{joined, joined3, joined_all, owned};

verus! {

/// Failure that prevents the daemon from running.
#[derive(Debug, PartialEq, Eq)]
pub enum ServerError {
    /// The requested path exists but is not a Unix socket.
    InvalidSocketTarget(String),
    /// Another daemon already accepts connections at this path.
    AlreadyRunning(String),
    /// The stale socket was replaced before it could be removed.
    SocketTargetChanged(String),
    /// A platform operation failed.
    Io { path: String, source: String },
    /// Durable state could not be opened or reconciled.
    Persistence(String),
    /// A Run that was handed over could not be adopted.
    Adopt(String),
    /// Owned work or controls could not be cleaned up.
    Shutdown { failures: String },
}

impl ServerError {
    /// What the failure says.
    pub open spec fn says(&self) -> Seq<char> {
        match *self {
            ServerError::InvalidSocketTarget(path) => "refusing to replace non-socket path: "@
                + path@,
            ServerError::AlreadyRunning(path) => "a ctxmux daemon is already listening at "@
                + path@,
            ServerError::SocketTargetChanged(path) =>
                "socket target changed during stale cleanup: "@ + path@,
            ServerError::Io { path, source } => "ctxmux daemon I/O failed at "@ + path@ + (": "@
                + source@),
            ServerError::Persistence(error) => error@,
            ServerError::Adopt(error) => "adopt handed-off run: "@ + error@,
            ServerError::Shutdown { failures } => "ctxmux daemon shutdown failed: "@ + failures@,
        }
    }

    /// Whether this is the failure of a platform operation on a path.
    pub open spec fn is_io(&self, path: Seq<char>, source: Seq<char>) -> bool {
        self matches ServerError::Io { path: at, source: why } && at@ == path && why@ == source
    }

    /// Whether this is a shutdown that reports some failures.
    pub open spec fn is_shutdown(&self, failures: Seq<char>) -> bool {
        self matches ServerError::Shutdown { failures: given } && given@ == failures
    }

    /// The failure of a platform operation on a path.
    pub fn io(path: &str, source: String) -> (r: ServerError)
        ensures
            r.is_io(path@, source@),
    {
        ServerError::Io { path: owned(path), source }
    }

    /// The text of the failure.
    pub fn message(&self) -> (r: String)
        ensures
            r@ == self.says(),
    {
        match self {
            ServerError::InvalidSocketTarget(path) => joined(
                "refusing to replace non-socket path: ",
                path.as_str(),
            ),
            ServerError::AlreadyRunning(path) => joined(
                "a ctxmux daemon is already listening at ",
                path.as_str(),
            ),
            ServerError::SocketTargetChanged(path) => joined(
                "socket target changed during stale cleanup: ",
                path.as_str(),
            ),
            ServerError::Io { path, source } => {
                let why = joined(": ", source.as_str());
                joined3("ctxmux daemon I/O failed at ", path.as_str(), why.as_str())
            },
            ServerError::Persistence(error) => error.clone(),
            ServerError::Adopt(error) => joined("adopt handed-off run: ", error.as_str()),
            ServerError::Shutdown { failures } => joined(
                "ctxmux daemon shutdown failed: ",
                failures.as_str(),
            ),
        }
    }
}

/// Identity of a socket in the file system.
#[derive(Debug, Clone, Copy, PartialEq, Eq, Structural)]
pub struct SocketIdentity {
    pub device: u64,
    pub inode: u64,
}

/// What a look at a path shows, without following links.
#[derive(Debug, Clone, Copy, PartialEq, Eq, Structural)]
pub struct PathFacts {
    pub is_socket: bool,
    pub identity: SocketIdentity,
}

/// Why a look at a path failed.
#[derive(Debug, PartialEq, Eq)]
pub struct LookFailure {
    /// The path does not exist.
    pub not_found: bool,
    pub source: String,
}

/// One step of the preparation of a socket path.
#[derive(Debug, Clone, Copy, PartialEq, Eq, Structural)]
pub enum SocketStage {
    CreateParent,
    TestExistence,
    FirstLook,
    FirstProbe { checked: SocketIdentity },
    SecondLook { checked: SocketIdentity },
    SecondProbe { checked: SocketIdentity },
    LastLook { checked: SocketIdentity },
    Remove { checked: SocketIdentity },
}

/// What came out of one step.
#[derive(Debug, PartialEq, Eq)]
pub enum SocketEvent {
    /// A directory was created or a file was removed.
    Done(Result<(), String>),
    /// Whether the path exists.
    Exists(bool),
    Looked(Result<PathFacts, LookFailure>),
    /// Whether a connection was accepted.
    Probed(bool),
}

/// What to do next with a socket path.
#[derive(Debug, PartialEq, Eq)]
pub enum SocketStep {
    Perform(SocketStage),
    /// The path is free.
    Free,
    Failed(ServerError),
}

/// Whether a step can come out this way.
pub open spec fn socket_event_possible(stage: SocketStage, event: SocketEvent) -> bool {
    match stage {
        SocketStage::CreateParent => event is Done,
        SocketStage::TestExistence => event is Exists,
        SocketStage::FirstLook => event is Looked,
        SocketStage::FirstProbe { .. } => event is Probed,
        SocketStage::SecondLook { .. } => event is Looked,
        SocketStage::SecondProbe { .. } => event is Probed,
        SocketStage::LastLook { .. } => event is Looked,
        SocketStage::Remove { .. } => event is Done,
    }
}

/// Whether a look shows the socket that was checked.
pub open spec fn is_checked_socket(facts: PathFacts, checked: SocketIdentity) -> bool {
    facts.is_socket && facts.identity == checked
}

/// What the preparation does after one event.
pub open spec fn socket_next(
    path: Seq<char>,
    parent: Seq<char>,
    stage: SocketStage,
    event: SocketEvent,
    step: SocketStep,
) -> bool {
    let io = |at: Seq<char>, source: Seq<char>|
        (step matches SocketStep::Failed(error) && error.is_io(at, source));
    let running = (step matches SocketStep::Failed(ServerError::AlreadyRunning(at)) && at@ == path);
    let changed = (step matches SocketStep::Failed(ServerError::SocketTargetChanged(at)) && at@
        == path);
    match (stage, event) {
        (SocketStage::CreateParent, SocketEvent::Done(Ok(_))) => step == SocketStep::Perform(
            SocketStage::TestExistence,
        ),
        (SocketStage::CreateParent, SocketEvent::Done(Err(source))) => io(parent, source@),
        (SocketStage::TestExistence, SocketEvent::Exists(exists)) => if exists {
            step == SocketStep::Perform(SocketStage::FirstLook)
        } else {
            step is Free
        },
        (SocketStage::FirstLook, SocketEvent::Looked(Ok(facts))) => if facts.is_socket {
            step == SocketStep::Perform(SocketStage::FirstProbe { checked: facts.identity })
        } else {
            step matches SocketStep::Failed(ServerError::InvalidSocketTarget(at)) && at@ == path
        },
        (SocketStage::FirstProbe { checked }, SocketEvent::Probed(answered)) => if answered {
            running
        } else {
            step == SocketStep::Perform(SocketStage::SecondLook { checked })
        },
        (SocketStage::SecondLook { checked }, SocketEvent::Looked(Ok(facts))) =>
            if is_checked_socket(facts, checked) {
                step == SocketStep::Perform(SocketStage::SecondProbe { checked })
            } else {
                changed
            },
        (SocketStage::SecondProbe { checked }, SocketEvent::Probed(answered)) => if answered {
            running
        } else {
            step == SocketStep::Perform(SocketStage::LastLook { checked })
        },
        (SocketStage::LastLook { checked }, SocketEvent::Looked(Ok(facts))) =>
            if is_checked_socket(facts, checked) {
                step == SocketStep::Perform(SocketStage::Remove { checked })
            } else {
                changed
            },
        (SocketStage::Remove { .. }, SocketEvent::Done(Ok(_))) => step is Free,
        (SocketStage::Remove { .. }, SocketEvent::Done(Err(source))) => io(path, source@),
        (_, SocketEvent::Looked(Err(failure))) => if stage is SecondLook && failure.not_found {
            step is Free
        } else {
            io(path, failure.source@)
        },
        _ => false,
    }
}

fn same_socket(facts: PathFacts, checked: SocketIdentity) -> (r: bool)
    ensures
        r == is_checked_socket(facts, checked),
{
    facts.is_socket && facts.identity.device == checked.device && facts.identity.inode
        == checked.inode
}

/// Carry on with the preparation of a socket path after one event. An old
/// socket is removed only after it twice accepted no connection and three
/// looks showed the same socket.
pub fn prepare_socket_path(path: &str, parent: &str, stage: SocketStage, event: SocketEvent) -> (r:
    SocketStep)
    requires
        socket_event_possible(stage, event),
    ensures
        socket_next(path@, parent@, stage, event, r),
{
    match event {
        SocketEvent::Done(done) => {
            let creating = match stage {
                SocketStage::CreateParent => true,
                _ => false,
            };
            match done {
                Ok(_) => {
                    if creating {
                        SocketStep::Perform(SocketStage::TestExistence)
                    } else {
                        SocketStep::Free
                    }
                },
                Err(source) => {
                    if creating {
                        SocketStep::Failed(ServerError::io(parent, source))
                    } else {
                        SocketStep::Failed(ServerError::io(path, source))
                    }
                },
            }
        },
        SocketEvent::Exists(exists) => {
            if exists {
                SocketStep::Perform(SocketStage::FirstLook)
            } else {
                SocketStep::Free
            }
        },
        SocketEvent::Looked(Ok(facts)) => match stage {
            SocketStage::SecondLook { checked } => {
                if same_socket(facts, checked) {
                    SocketStep::Perform(SocketStage::SecondProbe { checked })
                } else {
                    SocketStep::Failed(ServerError::SocketTargetChanged(owned(path)))
                }
            },
            SocketStage::LastLook { checked } => {
                if same_socket(facts, checked) {
                    SocketStep::Perform(SocketStage::Remove { checked })
                } else {
                    SocketStep::Failed(ServerError::SocketTargetChanged(owned(path)))
                }
            },
            _ => {
                if facts.is_socket {
                    SocketStep::Perform(SocketStage::FirstProbe { checked: facts.identity })
                } else {
                    SocketStep::Failed(ServerError::InvalidSocketTarget(owned(path)))
                }
            },
        },
        SocketEvent::Looked(Err(failure)) => {
            let second = match stage {
                SocketStage::SecondLook { .. } => true,
                _ => false,
            };
            if second && failure.not_found {
                SocketStep::Free
            } else {
                SocketStep::Failed(ServerError::io(path, failure.source))
            }
        },
        SocketEvent::Probed(answered) => {
            if answered {
                return SocketStep::Failed(ServerError::AlreadyRunning(owned(path)));
            }
            match stage {
                SocketStage::FirstProbe { checked } => SocketStep::Perform(
                    SocketStage::SecondLook { checked },
                ),
                SocketStage::SecondProbe { checked } => SocketStep::Perform(
                    SocketStage::LastLook { checked },
                ),
                _ => SocketStep::Free,
            }
        },
    }
}

impl SocketStage {
    /// The socket that this stage is about.
    pub open spec fn subject(&self) -> Option<SocketIdentity> {
        match *self {
            SocketStage::FirstProbe { checked } => Some(checked),
            SocketStage::SecondLook { checked } => Some(checked),
            SocketStage::SecondProbe { checked } => Some(checked),
            SocketStage::LastLook { checked } => Some(checked),
            SocketStage::Remove { checked } => Some(checked),
            _ => None,
        }
    }
}

/// Only the socket that was looked at first is ever removed: every stage is
/// about that socket, a socket that answers ends the preparation, and the
/// removal comes right after a look that showed that very socket again.
pub proof fn law_only_the_checked_socket_is_removed(
    path: Seq<char>,
    parent: Seq<char>,
    stage: SocketStage,
    event: SocketEvent,
    next: SocketStage,
)
    requires
        socket_event_possible(stage, event),
        socket_next(path, parent, stage, event, SocketStep::Perform(next)),
    ensures
        stage.subject() matches Some(checked) ==> next.subject() == Some(checked),
        event != SocketEvent::Probed(true),
        event matches SocketEvent::Looked(Ok(facts)) ==> (next.subject() matches Some(checked)
            && is_checked_socket(facts, checked)),
        next is Remove ==> stage is LastLook && event is Looked,
        next is LastLook ==> stage is SecondProbe,
        next is SecondProbe ==> stage is SecondLook && event is Looked,
        next is SecondLook ==> stage is FirstProbe,
        next is FirstProbe ==> stage is FirstLook && event is Looked,
{
}

/// The socket that this daemon serves, to be removed at its end.
#[derive(Debug, PartialEq, Eq)]
pub struct SocketGuard {
    pub path: String,
    pub identity: SocketIdentity,
}

impl SocketGuard {
    /// Guard the socket that a look at the path shows.
    pub fn new(path: String, seen: Result<PathFacts, String>) -> (r: Result<
        SocketGuard,
        ServerError,
    >)
        ensures
            match seen {
                Err(source) => r matches Err(error) && error.is_io(path@, source@),
                Ok(facts) => if facts.is_socket {
                    r == Ok::<SocketGuard, ServerError>(
                        SocketGuard { path, identity: facts.identity },
                    )
                } else {
                    r == Err::<SocketGuard, ServerError>(ServerError::SocketTargetChanged(path))
                },
            },
    {
        match seen {
            Err(source) => Err(ServerError::io(path.as_str(), source)),
            Ok(facts) => {
                if facts.is_socket {
                    Ok(SocketGuard { path, identity: facts.identity })
                } else {
                    Err(ServerError::SocketTargetChanged(path))
                }
            },
        }
    }

    /// Whether the path is to be removed at the end: it still shows the
    /// guarded socket.
    pub fn removes(&self, seen: Option<PathFacts>) -> (r: bool)
        ensures
            r == (seen matches Some(facts) && is_checked_socket(facts, self.identity)),
    {
        match seen {
            Some(facts) => same_socket(facts, self.identity),
            None => false,
        }
    }
}

/// The first failure that ends this incarnation of the daemon.
pub struct IncarnationFailure {
    message: Option<String>,
}

impl IncarnationFailure {
    /// The failure, once there is one.
    pub closed spec fn view(&self) -> Option<Seq<char>> {
        match self.message {
            Some(message) => Some(message@),
            None => None,
        }
    }

    /// No failure.
    pub fn new() -> (r: IncarnationFailure)
        ensures
            r@ is None,
    {
        IncarnationFailure { message: None }
    }

    /// Record a failure; a later one changes nothing. The result says whether
    /// it was the first.
    pub fn record(&mut self, message: String) -> (r: bool)
        ensures
            r == (old(self)@ is None),
            final(self)@ == (match old(self)@ {
                Some(first) => Some(first),
                None => Some(message@),
            }),
    {
        match self.message {
            Some(_) => false,
            None => {
                self.message = Some(message);
                true
            },
        }
    }

    /// The failure, once there is one.
    pub fn message(&self) -> (r: Option<String>)
        ensures
            match self@ {
                Some(message) => r matches Some(text) && text@ == message,
                None => r is None,
            },
    {
        match &self.message {
            Some(message) => Some(message.clone()),
            None => None,
        }
    }
}

/// Record that nobody can wait for the child of a Run any more: no further
/// Run is created, and this incarnation ends.
pub fn record_native_wait_failure(
    flights: &mut CreationFlightOwner,
    failure: &mut IncarnationFailure,
    run_id: RunId,
    error: &str,
)
    requires
        old(flights)@.valid(),
    ensures
        final(flights)@.valid(),
        final(flights)@ == (FlightsView { accepting: false, ..old(flights)@ }),
        final(failure)@ == (match old(failure)@ {
            Some(first) => Some(first),
            None => Some(
                "Run "@ + run_id.text()
                    + " lost native child wait authority; restart is required: "@ + error@,
            ),
        }),
{
    flights.fence();
    let text = run_id.to_text();
    let subject = joined3(
        "Run ",
        text.as_str(),
        " lost native child wait authority; restart is required: ",
    );
    let _ = failure.record(joined(subject.as_str(), error));
}

/// What the daemon serves from.
#[derive(Debug, Clone, Copy, PartialEq, Eq, Structural)]
pub enum StartMode {
    /// Runs live in memory only.
    Memory,
    /// Runs have durable records.
    Durable,
    /// The image was replaced: Runs, records and socket are inherited.
    Handoff,
}

/// One step of the daemon's start.
#[derive(Debug, Clone, Copy, PartialEq, Eq, Structural)]
pub enum StartStage {
    ReadManifest,
    ClaimMasters,
    ClaimStateLock,
    OpenState,
    OpenStats,
    BuildManager,
    AdoptListener,
    PreparePath,
    Bind,
    RestrictPath,
    GuardSocket,
    AnnounceReadiness,
    WatchHangup,
    Serve,
}

/// Why a step of the start failed.
#[derive(Debug, PartialEq, Eq)]
pub enum StartFailure {
    /// A platform operation failed.
    Io(String),
    /// The step has its own failure.
    Server(ServerError),
    /// A Run could not be adopted.
    Adoption(String),
}

/// What comes after one step of the start.
#[derive(Debug, PartialEq, Eq)]
pub enum StartStep {
    Perform(StartStage),
    Failed(ServerError),
}

/// The first step.
pub fn first_start_stage(mode: StartMode) -> (r: StartStage)
    ensures
        r == (match mode {
            StartMode::Memory => StartStage::OpenStats,
            StartMode::Durable => StartStage::OpenState,
            StartMode::Handoff => StartStage::ReadManifest,
        }),
{
    match mode {
        StartMode::Memory => StartStage::OpenStats,
        StartMode::Durable => StartStage::OpenState,
        StartMode::Handoff => StartStage::ReadManifest,
    }
}

impl StartStage {
    /// The stage after this one; `announces` tells whether someone waits for
    /// the readiness record.
    pub open spec fn following(&self, mode: StartMode, announces: bool) -> StartStage {
        match *self {
            StartStage::ReadManifest => StartStage::ClaimMasters,
            StartStage::ClaimMasters => StartStage::ClaimStateLock,
            StartStage::ClaimStateLock => StartStage::OpenState,
            StartStage::OpenState => StartStage::OpenStats,
            StartStage::OpenStats => StartStage::BuildManager,
            StartStage::BuildManager => if mode is Handoff {
                StartStage::AdoptListener
            } else {
                StartStage::PreparePath
            },
            StartStage::AdoptListener => StartStage::GuardSocket,
            StartStage::PreparePath => StartStage::Bind,
            StartStage::Bind => StartStage::RestrictPath,
            StartStage::RestrictPath => StartStage::GuardSocket,
            StartStage::GuardSocket => if announces {
                StartStage::AnnounceReadiness
            } else {
                StartStage::WatchHangup
            },
            StartStage::AnnounceReadiness => StartStage::WatchHangup,
            StartStage::WatchHangup => StartStage::Serve,
            StartStage::Serve => StartStage::Serve,
        }
    }

    /// Whether the socket path is touched at this stage.
    pub open spec fn replaces_socket(&self) -> bool {
        self is PreparePath || self is Bind || self is RestrictPath
    }

    /// Where a platform failure of this stage is reported.
    pub open spec fn place(&self, socket_path: Seq<char>) -> Seq<char> {
        match *self {
            StartStage::ReadManifest => "<handoff-fd>"@,
            StartStage::ClaimMasters => "<handoff master fd>"@,
            StartStage::ClaimStateLock => "<handoff state-lock fd>"@,
            StartStage::OpenStats => "qualification stats fd"@,
            StartStage::AdoptListener => "<handoff listener fd>"@,
            StartStage::AnnounceReadiness => "<readiness-fd>"@,
            StartStage::WatchHangup => "<sighup>"@,
            _ => socket_path,
        }
    }
}

fn start_place(stage: StartStage, socket_path: &str) -> (r: String)
    ensures
        r@ == stage.place(socket_path@),
{
    match stage {
        StartStage::ReadManifest => owned("<handoff-fd>"),
        StartStage::ClaimMasters => owned("<handoff master fd>"),
        StartStage::ClaimStateLock => owned("<handoff state-lock fd>"),
        StartStage::OpenStats => owned("qualification stats fd"),
        StartStage::AdoptListener => owned("<handoff listener fd>"),
        StartStage::AnnounceReadiness => owned("<readiness-fd>"),
        StartStage::WatchHangup => owned("<sighup>"),
        _ => owned(socket_path),
    }
}

/// What the start does after the outcome of one stage.
pub open spec fn start_next(
    socket_path: Seq<char>,
    mode: StartMode,
    announces: bool,
    stage: StartStage,
    outcome: Result<(), StartFailure>,
    step: StartStep,
) -> bool {
    match outcome {
        Ok(_) => step == StartStep::Perform(stage.following(mode, announces)),
        Err(StartFailure::Io(source)) => step matches StartStep::Failed(error) && error.is_io(
            stage.place(socket_path),
            source@,
        ),
        Err(StartFailure::Server(error)) => step == StartStep::Failed(error),
        Err(StartFailure::Adoption(message)) => step == StartStep::Failed(
            ServerError::Adopt(message),
        ),
    }
}

/// Carry on with the daemon's start after one stage.
pub fn start_service(
    socket_path: &str,
    mode: StartMode,
    announces: bool,
    stage: StartStage,
    outcome: Result<(), StartFailure>,
) -> (r: StartStep)
    ensures
        start_next(socket_path@, mode, announces, stage, outcome, r),
{
    match outcome {
        Err(StartFailure::Io(source)) => {
            let place = start_place(stage, socket_path);
            StartStep::Failed(ServerError::io(place.as_str(), source))
        },
        Err(StartFailure::Server(error)) => StartStep::Failed(error),
        Err(StartFailure::Adoption(message)) => StartStep::Failed(ServerError::Adopt(message)),
        Ok(_) => StartStep::Perform(
            match stage {
                StartStage::ReadManifest => StartStage::ClaimMasters,
                StartStage::ClaimMasters => StartStage::ClaimStateLock,
                StartStage::ClaimStateLock => StartStage::OpenState,
                StartStage::OpenState => StartStage::OpenStats,
                StartStage::OpenStats => StartStage::BuildManager,
                StartStage::BuildManager => match mode {
                    StartMode::Handoff => StartStage::AdoptListener,
                    _ => StartStage::PreparePath,
                },
                StartStage::AdoptListener => StartStage::GuardSocket,
                StartStage::PreparePath => StartStage::Bind,
                StartStage::Bind => StartStage::RestrictPath,
                StartStage::RestrictPath => StartStage::GuardSocket,
                StartStage::GuardSocket => {
                    if announces {
                        StartStage::AnnounceReadiness
                    } else {
                        StartStage::WatchHangup
                    }
                },
                StartStage::AnnounceReadiness => StartStage::WatchHangup,
                StartStage::WatchHangup => StartStage::Serve,
                StartStage::Serve => StartStage::Serve,
            },
        ),
    }
}

/// An image that inherited its socket never replaces it, so connected clients
/// keep their daemon; every other image prepares the path before it binds.
pub proof fn law_a_handoff_keeps_its_socket(mode: StartMode, announces: bool, stage: StartStage)
    requires
        !stage.replaces_socket(),
        mode is Handoff || !(stage is AdoptListener),
    ensures
        mode is Handoff ==> !stage.following(mode, announces).replaces_socket(),
        stage.following(mode, announces).replaces_socket() ==> stage.following(
            mode,
            announces,
        ) is PreparePath,
        stage.following(mode, announces) is AdoptListener ==> mode is Handoff,
{
}

/// Whether a text is printable ASCII that stands in JSON as it is.
pub open spec fn is_plain(text: Seq<char>) -> bool {
    forall|i: int|
        0 <= i < text.len() ==> ' ' <= #[trigger] text[i] <= '~' && text[i] != '"' && text[i]
            != '\\'
}

/// Whether members are plain and stand in the order of their names.
pub open spec fn members_are_plain(members: Seq<(Seq<char>, Seq<char>)>) -> bool {
    &&& forall|i: int|
        0 <= i < members.len() ==> is_plain((#[trigger] members[i]).0) && is_plain(members[i].1)
    &&& forall|i: int, j: int|
        0 <= i < j < members.len() ==> (#[trigger] members[i]).0 != (#[trigger] members[j]).0
            && text_not_after(members[i].0, members[j].0)
}

/// The JSON text of an object with plain members.
pub open spec fn object_text(members: Seq<(Seq<char>, Seq<char>)>) -> Seq<char> {
    seq!['{'] + joined_all(
        members.map_values(
            |member: (Seq<char>, Seq<char>)|
                seq!['"'] + member.0 + seq!['"', ':', '"'] + member.1 + seq!['"'],
        ),
        seq![','],
    ) + seq!['}']
}

/// The bytes of a plain text.
pub open spec fn ascii_bytes(text: Seq<char>) -> Seq<u8> {
    text.map_values(|c: char| c as u8)
}

/// `serde_json::to_vec` on an object whose members are strings. Claimed is that
/// plain members, given in the order of their names, are written without
/// spaces and without escapes, one after the other. An object of strings can
/// always be written.
#[verifier::external_body]
fn encode_json_object(members: Vec<(String, String)>) -> (r: Result<Vec<u8>, String>)
    requires
        members_are_plain(pairs_view(members@)),
    ensures
        r is Ok,
        r->Ok_0@ == ascii_bytes(object_text(pairs_view(members@))),
{
    let object: serde_json::Map<String, serde_json::Value> = members
        .into_iter()
        .map(|(name, text)| (name, serde_json::Value::String(text)))
        .collect();
    serde_json::to_vec(&object).map_err(|error| error.to_string())
}

/// The members of a readiness record.
pub open spec fn readiness_members(instance: DaemonInstanceId) -> Seq<(Seq<char>, Seq<char>)> {
    seq![
        ("daemon_instance"@, instance.text()),
        ("schema"@, "ctxmux.daemon-ready.v1"@),
    ]
}

proof fn lemma_readiness_members_are_plain(instance: DaemonInstanceId)
    ensures
        members_are_plain(readiness_members(instance)),
{
    reveal_strlit("daemon_instance");
    reveal_strlit("schema");
    reveal_strlit("ctxmux.daemon-ready.v1");
    lemma_uuid_text_is_hexadecimal(instance.value);
    assert(is_plain("daemon_instance"@));
    assert(is_plain("schema"@));
    assert(is_plain("ctxmux.daemon-ready.v1"@));
    assert("daemon_instance"@[0] == 'd' && "schema"@[0] == 's');
    assert(text_not_after("daemon_instance"@, "schema"@));
}

/// One line from an encoded record.
pub fn readiness_line(encoded: Result<Vec<u8>, String>) -> (r: Result<Vec<u8>, ServerError>)
    ensures
        match encoded {
            Ok(text) => r matches Ok(line) && line@ == text@.push(10u8),
            Err(source) => r matches Err(error) && error.is_io("<readiness-fd>"@, source@),
        },
{
    match encoded {
        Ok(text) => {
            let mut line = text;
            line.push(10u8);
            Ok(line)
        },
        Err(source) => Err(ServerError::io("<readiness-fd>", source)),
    }
}

/// The record that tells a waiting parent which incarnation is ready.
pub fn readiness_record(instance: DaemonInstanceId) -> (r: Result<Vec<u8>, ServerError>)
    ensures
        r matches Ok(line) && line@ == ascii_bytes(
            object_text(readiness_members(instance)),
        ).push(10u8),
{
    let mut members: Vec<(String, String)> = Vec::new();
    members.push((owned("daemon_instance"), instance.to_text()));
    members.push((owned("schema"), owned("ctxmux.daemon-ready.v1")));
    proof {
        assert(pairs_view(members@) =~= readiness_members(instance));
        lemma_readiness_members_are_plain(instance);
    }
    readiness_line(encode_json_object(members))
}

/// What the service loop sees.
#[derive(Debug, PartialEq, Eq)]
pub enum ServeEvent {
    /// A client connected, or the listener failed.
    Connected(Result<(), String>),
    /// The user asked the daemon to stop, or the signal could not be awaited.
    Interrupted(Result<(), String>),
    /// The daemon was asked to replace its image.
    HungUp,
    /// An upgrade was given up.
    UpgradeAborted(UpgradeAbort),
    /// This incarnation cannot go on.
    IncarnationFailed(String),
}

/// Why the daemon stops.
#[derive(Debug, PartialEq, Eq)]
pub enum ServiceEnd {
    Interrupted,
    UpgradeFailed(String),
    IncarnationFailed(String),
}

/// What the service loop does.
#[derive(Debug, PartialEq, Eq)]
pub enum ServeStep {
    /// Serve the connection beside the others.
    HandleConnection,
    /// Say this and go on.
    Log(String),
    /// Replace the image.
    Upgrade,
    /// Shut down what the daemon owns, then end.
    ShutDown(ServiceEnd),
    Return(ServerError),
}

/// What the service loop does on an event. `persistent` tells whether Runs
/// have durable records; the state directory is needed to run the new image.
pub open spec fn serve_next(
    socket_path: Seq<char>,
    persistent: bool,
    has_state_dir: bool,
    event: ServeEvent,
    step: ServeStep,
) -> bool {
    match event {
        ServeEvent::Connected(Ok(_)) => step is HandleConnection,
        ServeEvent::Connected(Err(source)) => step matches ServeStep::Return(error) && error.is_io(
            socket_path,
            source@,
        ),
        ServeEvent::Interrupted(Ok(_)) => step == ServeStep::ShutDown(ServiceEnd::Interrupted),
        ServeEvent::Interrupted(Err(source)) => step matches ServeStep::Return(error)
            && error.is_io(socket_path, source@),
        ServeEvent::HungUp => if !persistent {
            step matches ServeStep::Log(line) && line@
                == "ctxmuxd: SIGHUP ignored: upgrade continuity requires --state-dir"@
        } else if !has_state_dir {
            step matches ServeStep::Log(line) && line@
                == "ctxmuxd: SIGHUP ignored: no state directory recorded for re-exec"@
        } else {
            step is Upgrade
        },
        ServeEvent::UpgradeAborted(UpgradeAbort::BeforeExtract(error)) => step matches ServeStep::Log(
            line,
        ) && line@
            == "ctxmuxd: exec-in-place upgrade aborted before extract, continuing to serve: "@
            + error.says(),
        ServeEvent::UpgradeAborted(UpgradeAbort::AfterExtract(error)) =>
            step matches ServeStep::ShutDown(ServiceEnd::UpgradeFailed(message)) && message@
                == "exec-in-place upgrade failed after extract: "@ + error.says(),
        ServeEvent::IncarnationFailed(failure) => step == ServeStep::ShutDown(
            ServiceEnd::IncarnationFailed(failure),
        ),
    }
}

/// Decide what the service loop does on an event. A failed upgrade whose
/// children are gone also ends the incarnation.
pub fn serve_with_manager(
    socket_path: &str,
    persistent: bool,
    has_state_dir: bool,
    event: ServeEvent,
    incarnation: &mut IncarnationFailure,
) -> (r: ServeStep)
    ensures
        serve_next(socket_path@, persistent, has_state_dir, event, r),
        match event {
            ServeEvent::UpgradeAborted(UpgradeAbort::AfterExtract(error)) => final(incarnation)@
                == Some(
                match old(incarnation)@ {
                    Some(first) => first,
                    None => "exec-in-place upgrade failed after extract: "@ + error.says(),
                },
            ),
            _ => final(incarnation)@ == old(incarnation)@,
        },
{
    match event {
        ServeEvent::Connected(Ok(_)) => ServeStep::HandleConnection,
        ServeEvent::Connected(Err(source)) => ServeStep::Return(
            ServerError::io(socket_path, source),
        ),
        ServeEvent::Interrupted(Ok(_)) => ServeStep::ShutDown(ServiceEnd::Interrupted),
        ServeEvent::Interrupted(Err(source)) => ServeStep::Return(
            ServerError::io(socket_path, source),
        ),
        ServeEvent::HungUp => {
            if !persistent {
                ServeStep::Log(
                    owned("ctxmuxd: SIGHUP ignored: upgrade continuity requires --state-dir"),
                )
            } else if !has_state_dir {
                ServeStep::Log(
                    owned("ctxmuxd: SIGHUP ignored: no state directory recorded for re-exec"),
                )
            } else {
                ServeStep::Upgrade
            }
        },
        ServeEvent::UpgradeAborted(UpgradeAbort::BeforeExtract(error)) => {
            let text = error.message();
            ServeStep::Log(
                joined(
                    "ctxmuxd: exec-in-place upgrade aborted before extract, continuing to serve: ",
                    text.as_str(),
                ),
            )
        },
        ServeEvent::UpgradeAborted(UpgradeAbort::AfterExtract(error)) => {
            let text = error.message();
            let message = joined("exec-in-place upgrade failed after extract: ", text.as_str());
            let _ = incarnation.record(message.clone());
            ServeStep::ShutDown(ServiceEnd::UpgradeFailed(message))
        },
        ServeEvent::IncarnationFailed(failure) => ServeStep::ShutDown(
            ServiceEnd::IncarnationFailed(failure),
        ),
    }
}

/// What the daemon returns once it shut down what it owned.
pub fn service_outcome(end: ServiceEnd, shutdown: Result<(), ServerError>) -> (r: Result<
    (),
    ServerError,
>)
    ensures
        match end {
            ServiceEnd::Interrupted => r == shutdown,
            ServiceEnd::UpgradeFailed(message) => r matches Err(error) && error.is_shutdown(
                message@,
            ),
            ServiceEnd::IncarnationFailed(failure) => r matches Err(error) && error.is_shutdown(
                match shutdown {
                    Ok(_) => failure@,
                    Err(cleanup) => failure@ + "; shutdown: "@ + cleanup.says(),
                },
            ),
        },
{
    match end {
        ServiceEnd::Interrupted => shutdown,
        ServiceEnd::UpgradeFailed(failures) => Err(ServerError::Shutdown { failures }),
        ServiceEnd::IncarnationFailed(failure) => match shutdown {
            Ok(_) => Err(ServerError::Shutdown { failures: failure }),
            Err(cleanup) => {
                let text = cleanup.message();
                Err(
                    ServerError::Shutdown {
                        failures: joined3(failure.as_str(), "; shutdown: ", text.as_str()),
                    },
                )
            },
        },
    }
}

/// The daemon goes on serving through everything but a stop, a broken
/// listener, an upgrade that lost its children, and the end of its
/// incarnation.
pub proof fn law_the_daemon_serves_on(
    socket_path: Seq<char>,
    persistent: bool,
    has_state_dir: bool,
    event: ServeEvent,
    step: ServeStep,
)
    requires
        serve_next(socket_path, persistent, has_state_dir, event, step),
    ensures
        (step is ShutDown || step is Return) <==> match event {
            ServeEvent::Connected(outcome) => outcome is Err,
            ServeEvent::Interrupted(_) => true,
            ServeEvent::HungUp => false,
            ServeEvent::UpgradeAborted(abort) => abort is AfterExtract,
            ServeEvent::IncarnationFailed(_) => true,
        },
{
}

} // verus!

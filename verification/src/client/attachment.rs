//! One live attachment: its commands, its events and the frames of its
//! connection.

use vstd::prelude::*;

use crate::client::commands::{
    AdmissionRefusal, AttachmentEnd, AttachmentState, CommandsView, PendingCommand, PendingKind,
    PendingResolution, ValidatedReceipt,
};
use crate::client::error::{
    control_not_applied, AttachmentUnavailableReason, AttachmentUnknownReason, ClientError,
};
use crate::client::inbox::{EventConsumerGuard, EventInbox, InboxView, NextEvent};
use crate::client::receipt::{
    AttachmentControlAccepted, InputReceipt, ResizeReceipt, StopReceipt,
};
use crate::protocol::{AttachmentCommandId, ClientFrame, ServerFrame, TerminalSize};

verus! {

/// A command and how it ended.
#[derive(Debug, PartialEq, Eq)]
pub struct CommandResult {
    pub command_id: AttachmentCommandId,
    pub resolution: PendingResolution,
}

/// What became of handing an encoded command to the connection writer.
#[derive(Debug, PartialEq, Eq)]
pub enum SendAttempt {
    /// The writer took the command.
    Queued,
    /// The command has no frame, for this reason.
    NotEncoded(String),
    /// The writer has no room.
    QueueFull,
    /// The writer is gone.
    QueueClosed,
}

/// What the connection reader saw.
#[derive(Debug, PartialEq, Eq)]
pub enum ReaderEvent {
    /// One frame from the daemon.
    Frame(ServerFrame),
    /// A line that is no frame, for this reason.
    Undecodable(String),
    /// The transport failed, for this reason.
    TransportFailed(String),
    /// The daemon closed the connection.
    EndOfStream,
}

/// What follows from what the reader saw.
#[derive(Debug, PartialEq, Eq)]
pub struct ReaderStep {
    /// Commands that ended.
    pub results: Vec<CommandResult>,
    /// Whether the reader is done.
    pub done: bool,
}

/// State of an attachment.
pub struct AttachmentView {
    pub commands: CommandsView,
    pub events: InboxView,
}

/// The commands with an unknown result each.
pub open spec fn unknown_results(
    pending: Seq<PendingCommand>,
    reason: AttachmentUnknownReason,
) -> Seq<CommandResult> {
    Seq::new(
        pending.len(),
        |i: int|
            CommandResult {
                command_id: pending[i].id,
                resolution: PendingResolution::Unknown(reason),
            },
    )
}

impl AttachmentView {
    /// What every attachment keeps: its commands and its events are sound, and
    /// once it has ended its stream of events is closed.
    pub open spec fn valid(&self) -> bool {
        &&& self.commands.valid()
        &&& self.events.valid()
        &&& self.commands.end is Some ==> self.events.closed
    }

    /// The state after termination; only the first end counts.
    pub open spec fn terminated(&self, error: Option<ClientError>) -> AttachmentView {
        if self.commands.end is Some {
            *self
        } else {
            AttachmentView { commands: self.commands.terminated(), events: self.events.ended(error) }
        }
    }

    /// The commands that termination ends.
    pub open spec fn lost(&self, reason: AttachmentUnknownReason) -> Seq<CommandResult> {
        if self.commands.end is Some {
            seq![]
        } else {
            unknown_results(self.commands.pending, reason)
        }
    }

    /// Whether a frame is one that the daemon may send now, and why not where
    /// it is not. `Error` ends the attachment by itself.
    pub open spec fn violation(&self, frame: ServerFrame) -> Option<Seq<char>> {
        match frame {
            ServerFrame::Event { event } => self.events.refusal(event),
            ServerFrame::CommandResult { command_id, outcome } => match self.commands.resolution(
                command_id,
                outcome,
            ) {
                Ok(_) => None,
                Err(message) => Some(message),
            },
            ServerFrame::Detached => if !self.commands.detaching {
                Some("daemon acknowledged a detach the client did not request"@)
            } else if self.commands.pending.len() > 0 {
                Some("daemon acknowledged detach while commands were unresolved"@)
            } else {
                None
            },
            ServerFrame::Error { .. } => None,
            _ => Some("daemon sent a non-attachment frame after attach"@),
        }
    }

    /// The state after a frame that violates nothing and is no `Error`.
    pub open spec fn received(&self, frame: ServerFrame) -> AttachmentView {
        match frame {
            ServerFrame::Event { event } => AttachmentView {
                events: self.events.pushed(event),
                ..*self
            },
            ServerFrame::CommandResult { command_id, .. } => AttachmentView {
                commands: self.commands.without(self.commands.place(command_id)->0),
                ..*self
            },
            _ => AttachmentView {
                commands: CommandsView {
                    end: Some(AttachmentEnd::Detached),
                    fence: Some(AttachmentUnavailableReason::Closed),
                    ..self.commands
                },
                events: self.events.ended(None),
            },
        }
    }

    /// The results that such a frame brings.
    pub open spec fn resolved(&self, frame: ServerFrame) -> Seq<CommandResult> {
        match frame {
            ServerFrame::CommandResult { command_id, outcome } => seq![
                CommandResult {
                    command_id,
                    resolution: self.commands.resolution(command_id, outcome)->Ok_0,
                },
            ],
            _ => seq![],
        }
    }
}

/// The result of a command for its caller. A result that was never delivered
/// is unknown.
pub open spec fn outcome_of(
    command_id: AttachmentCommandId,
    resolution: Option<PendingResolution>,
) -> Result<ValidatedReceipt, ClientError> {
    match resolution {
        Some(PendingResolution::Accepted(receipt)) => Ok(receipt),
        Some(PendingResolution::Rejected(failure)) => Err(ClientError::ControlRejected { failure }),
        Some(PendingResolution::Unknown(reason)) => Err(
            ClientError::AttachmentCommandUnknown { command_id, reason },
        ),
        None => Err(
            ClientError::AttachmentCommandUnknown {
                command_id,
                reason: AttachmentUnknownReason::TransportTerminated,
            },
        ),
    }
}

fn command_outcome(
    command_id: AttachmentCommandId,
    resolution: Option<PendingResolution>,
) -> (r: Result<ValidatedReceipt, ClientError>)
    ensures
        r == outcome_of(command_id, resolution),
{
    match resolution {
        Some(PendingResolution::Accepted(receipt)) => Ok(receipt),
        Some(PendingResolution::Rejected(failure)) => Err(ClientError::ControlRejected { failure }),
        Some(PendingResolution::Unknown(reason)) => Err(
            ClientError::AttachmentCommandUnknown { command_id, reason },
        ),
        None => Err(
            ClientError::AttachmentCommandUnknown {
                command_id,
                reason: AttachmentUnknownReason::TransportTerminated,
            },
        ),
    }
}

/// Whether `r` is what an admission with this refusal returns.
pub open spec fn admission<T>(refusal: Option<AdmissionRefusal>, r: Result<T, ClientError>) -> bool {
    match refusal {
        Some(AdmissionRefusal::Unavailable(reason)) => r == Err::<T, ClientError>(
            ClientError::AttachmentUnavailable { reason },
        ),
        Some(AdmissionRefusal::Backpressure(limit)) => r matches Err(
            ClientError::AttachmentBackpressure { limit: text },
        ) && text@ == limit,
        None => r is Ok,
    }
}

/// Live attachment to one daemon-owned Run.
pub struct Attachment {
    commands: AttachmentState,
    events: EventInbox,
}

impl Attachment {
    /// State of this attachment.
    pub closed spec fn view(&self) -> AttachmentView {
        AttachmentView { commands: self.commands@, events: self.events@ }
    }

    /// Whether the commands and the events keep their invariants.
    pub closed spec fn wf(&self) -> bool {
        self.commands.wf() && self.events.wf() && (self@.commands.end is Some
            ==> self@.events.closed)
    }

    /// What a well-formed attachment keeps.
    pub proof fn lemma_wf_is_valid(&self)
        requires
            self.wf(),
        ensures
            self@.valid(),
    {
        self.commands.lemma_wf_is_valid();
        self.events.lemma_wf_is_valid();
    }

    /// An attachment whose snapshot was just read.
    pub fn new() -> (r: Attachment)
        ensures
            r.wf(),
            r@.commands == (CommandsView {
                next_command_id: 1,
                fence: None,
                detaching: false,
                end: None,
                pending: seq![],
            }),
            r@.events == (InboxView {
                queue: seq![],
                gap: None,
                terminal: None,
                saw_terminal: false,
                closed: false,
                error: None,
                reading: false,
            }),
    {
        Attachment { commands: AttachmentState::new(), events: EventInbox::new() }
    }

    fn register(&mut self, kind: PendingKind) -> (r: Result<AttachmentCommandId, ClientError>)
        requires
            old(self).wf(),
        ensures
            final(self).wf(),
            admission(old(self)@.commands.refusal(kind), r),
            r is Err ==> final(self)@ == old(self)@,
            r matches Ok(id) ==> id == old(self)@.commands.next_id() && final(self)@
                == (AttachmentView {
                commands: old(self)@.commands.registered(kind),
                ..old(self)@
            }),
    {
        self.commands.register_command(kind)
    }

    /// Admit an Input and build its frame.
    pub fn input(&mut self, data: Vec<u8>) -> (r: Result<ClientFrame, ClientError>)
        requires
            old(self).wf(),
        ensures
            final(self).wf(),
            ({
                let kind = PendingKind::Input { expected_bytes: data@.len() as usize };
                &&& admission(old(self)@.commands.refusal(kind), r)
                &&& r is Err ==> final(self)@ == old(self)@
                &&& r matches Ok(frame) ==> frame == (ClientFrame::Input {
                    command_id: old(self)@.commands.next_id(),
                    data,
                }) && final(self)@ == (AttachmentView {
                    commands: old(self)@.commands.registered(kind),
                    ..old(self)@
                })
            }),
    {
        match self.register(PendingKind::Input { expected_bytes: data.len() }) {
            Ok(command_id) => Ok(ClientFrame::Input { command_id, data }),
            Err(error) => Err(error),
        }
    }

    /// Admit a resize and build its frame.
    pub fn resize(&mut self, size: TerminalSize) -> (r: Result<ClientFrame, ClientError>)
        requires
            old(self).wf(),
        ensures
            final(self).wf(),
            admission(old(self)@.commands.refusal(PendingKind::Resize), r),
            r is Err ==> final(self)@ == old(self)@,
            r matches Ok(frame) ==> frame == (ClientFrame::Resize {
                command_id: old(self)@.commands.next_id(),
                size,
            }) && final(self)@ == (AttachmentView {
                commands: old(self)@.commands.registered(PendingKind::Resize),
                ..old(self)@
            }),
    {
        match self.register(PendingKind::Resize) {
            Ok(command_id) => Ok(ClientFrame::Resize { command_id, size }),
            Err(error) => Err(error),
        }
    }

    /// Admit a stop and build its frame.
    pub fn stop(&mut self) -> (r: Result<ClientFrame, ClientError>)
        requires
            old(self).wf(),
        ensures
            final(self).wf(),
            admission(old(self)@.commands.refusal(PendingKind::Stop), r),
            r is Err ==> final(self)@ == old(self)@,
            r matches Ok(frame) ==> frame == (ClientFrame::Stop {
                command_id: old(self)@.commands.next_id(),
            }) && final(self)@ == (AttachmentView {
                commands: old(self)@.commands.registered(PendingKind::Stop),
                ..old(self)@
            }),
    {
        match self.register(PendingKind::Stop) {
            Ok(command_id) => Ok(ClientFrame::Stop { command_id }),
            Err(error) => Err(error),
        }
    }

    /// Settle whether the newest command reached the connection writer. One
    /// that did not is taken back; if the writer is gone the attachment ends.
    pub fn issue_command(&mut self, command_id: AttachmentCommandId, attempt: SendAttempt) -> (r: (
        Result<(), ClientError>,
        Vec<CommandResult>,
    ))
        requires
            old(self).wf(),
            old(self)@.commands.waits(command_id) ==> old(self)@.commands.is_newest(command_id),
        ensures
            final(self).wf(),
            ({
                let taken_back = AttachmentView {
                    commands: old(self)@.commands.cancelled(command_id),
                    ..old(self)@
                };
                match attempt {
                    SendAttempt::Queued => {
                        &&& r.0 is Ok
                        &&& r.1@ == Seq::<CommandResult>::empty()
                        &&& final(self)@ == old(self)@
                    },
                    SendAttempt::NotEncoded(reason) => {
                        &&& r.0 == Err::<(), ClientError>(
                            ClientError::ControlNotApplied {
                                source: Box::new(ClientError::Frame(reason)),
                            },
                        )
                        &&& r.1@ == Seq::<CommandResult>::empty()
                        &&& final(self)@ == taken_back
                    },
                    SendAttempt::QueueFull => {
                        &&& r.0 matches Err(ClientError::AttachmentBackpressure { limit })
                            && limit@ == "64 queued writer commands"@
                        &&& r.1@ == Seq::<CommandResult>::empty()
                        &&& final(self)@ == taken_back
                    },
                    SendAttempt::QueueClosed => {
                        &&& r.0 == Err::<(), ClientError>(
                            ClientError::ControlNotApplied {
                                source: Box::new(ClientError::Closed),
                            },
                        )
                        &&& r.1@ == taken_back.lost(AttachmentUnknownReason::TransportTerminated)
                        &&& final(self)@ == taken_back.terminated(Some(ClientError::Closed))
                    },
                }
            }),
    {
        match attempt {
            SendAttempt::Queued => (Ok(()), Vec::new()),
            SendAttempt::NotEncoded(reason) => {
                self.commands.cancel_unsent_command(command_id);
                (Err(control_not_applied(ClientError::Frame(reason))), Vec::new())
            },
            SendAttempt::QueueFull => {
                self.commands.cancel_unsent_command(command_id);
                (
                    Err(ClientError::AttachmentBackpressure { limit: "64 queued writer commands" }),
                    Vec::new(),
                )
            },
            SendAttempt::QueueClosed => {
                self.commands.cancel_unsent_command(command_id);
                let lost = self.terminate(
                    AttachmentUnknownReason::TransportTerminated,
                    Some(ClientError::Closed),
                );
                (Err(control_not_applied(ClientError::Closed)), lost)
            },
        }
    }

    /// The result of an Input for its caller.
    pub fn input_result(command_id: AttachmentCommandId, resolution: Option<PendingResolution>) -> (r:
        Result<AttachmentControlAccepted<InputReceipt>, ClientError>)
        ensures
            match outcome_of(command_id, resolution) {
                Ok(ValidatedReceipt::Input(receipt)) => r == Ok::<
                    AttachmentControlAccepted<InputReceipt>,
                    ClientError,
                >(AttachmentControlAccepted { command_id, receipt }),
                Ok(_) => r matches Err(e) && e.violates(
                    "validated input command resolved with another receipt kind"@,
                ),
                Err(e) => r == Err::<AttachmentControlAccepted<InputReceipt>, ClientError>(e),
            },
    {
        match command_outcome(command_id, resolution) {
            Ok(ValidatedReceipt::Input(receipt)) => Ok(
                AttachmentControlAccepted { command_id, receipt },
            ),
            Ok(_) => Err(
                ClientError::ProtocolContractViolation(
                    "validated input command resolved with another receipt kind",
                ),
            ),
            Err(error) => Err(error),
        }
    }

    /// The result of a resize for its caller.
    pub fn resize_result(
        command_id: AttachmentCommandId,
        resolution: Option<PendingResolution>,
    ) -> (r: Result<AttachmentControlAccepted<ResizeReceipt>, ClientError>)
        ensures
            match outcome_of(command_id, resolution) {
                Ok(ValidatedReceipt::Resize(receipt)) => r == Ok::<
                    AttachmentControlAccepted<ResizeReceipt>,
                    ClientError,
                >(AttachmentControlAccepted { command_id, receipt }),
                Ok(_) => r matches Err(e) && e.violates(
                    "validated resize command resolved with another receipt kind"@,
                ),
                Err(e) => r == Err::<AttachmentControlAccepted<ResizeReceipt>, ClientError>(e),
            },
    {
        match command_outcome(command_id, resolution) {
            Ok(ValidatedReceipt::Resize(receipt)) => Ok(
                AttachmentControlAccepted { command_id, receipt },
            ),
            Ok(_) => Err(
                ClientError::ProtocolContractViolation(
                    "validated resize command resolved with another receipt kind",
                ),
            ),
            Err(error) => Err(error),
        }
    }

    /// The result of a stop for its caller.
    pub fn stop_result(command_id: AttachmentCommandId, resolution: Option<PendingResolution>) -> (r:
        Result<AttachmentControlAccepted<StopReceipt>, ClientError>)
        ensures
            match outcome_of(command_id, resolution) {
                Ok(ValidatedReceipt::Stop(receipt)) => r == Ok::<
                    AttachmentControlAccepted<StopReceipt>,
                    ClientError,
                >(AttachmentControlAccepted { command_id, receipt }),
                Ok(_) => r matches Err(e) && e.violates(
                    "validated stop command resolved with another receipt kind"@,
                ),
                Err(e) => r == Err::<AttachmentControlAccepted<StopReceipt>, ClientError>(e),
            },
    {
        match command_outcome(command_id, resolution) {
            Ok(ValidatedReceipt::Stop(receipt)) => Ok(
                AttachmentControlAccepted { command_id, receipt },
            ),
            Ok(_) => Err(
                ClientError::ProtocolContractViolation(
                    "validated stop command resolved with another receipt kind",
                ),
            ),
            Err(error) => Err(error),
        }
    }

    /// Take the sole right to read events.
    pub fn begin_events(&mut self) -> (r: Result<EventConsumerGuard, ClientError>)
        requires
            old(self).wf(),
        ensures
            final(self).wf(),
            final(self)@ == (AttachmentView {
                events: InboxView { reading: true, ..old(self)@.events },
                ..old(self)@
            }),
            old(self)@.events.reading ==> (r matches Err(e) && e is ConcurrentEventRead),
            !old(self)@.events.reading ==> r is Ok,
    {
        self.events.begin_read()
    }

    /// Hand out the next live Run event to the holder of the right to read.
    pub fn next_event(&mut self, _reading: &EventConsumerGuard) -> (r: NextEvent)
        requires
            old(self).wf(),
        ensures
            final(self).wf(),
            final(self)@.commands == old(self)@.commands,
            ({
                let before = old(self)@.events;
                if before.deliveries().len() > 0 {
                    &&& r matches NextEvent::Ready(Ok(Some(event))) && event
                        == before.deliveries()[0]
                    &&& final(self)@.events == before.advanced()
                    &&& final(self)@.events.deliveries() == before.deliveries().drop_first()
                } else if before.error is Some {
                    &&& r matches NextEvent::Ready(Err(e)) && Some(e) == before.error
                    &&& final(self)@.events == (InboxView { error: None, ..before })
                } else {
                    &&& final(self)@.events == before
                    &&& before.closed ==> (r matches NextEvent::Ready(Ok(None)))
                    &&& !before.closed ==> r is Wait
                }
            }),
    {
        self.events.next()
    }

    /// Give the right to read events back.
    pub fn end_events(&mut self, reading: EventConsumerGuard)
        requires
            old(self).wf(),
        ensures
            final(self).wf(),
            final(self)@ == (AttachmentView {
                events: InboxView { reading: false, ..old(self)@.events },
                ..old(self)@
            }),
    {
        self.events.end_read(reading)
    }

    /// Start a clean detach: fence new commands.
    pub fn detach(&mut self) -> (r: Result<(), ClientError>)
        requires
            old(self).wf(),
        ensures
            final(self).wf(),
            if old(self)@.commands.end is Some {
                &&& r == Err::<(), ClientError>(
                    ClientError::AttachmentUnavailable {
                        reason: AttachmentUnavailableReason::Closed,
                    },
                )
                &&& final(self)@ == old(self)@
            } else {
                &&& r is Ok
                &&& final(self)@ == (AttachmentView {
                    commands: CommandsView {
                        fence: Some(AttachmentUnavailableReason::Detaching),
                        detaching: true,
                        ..old(self)@.commands
                    },
                    ..old(self)@
                })
            },
    {
        self.commands.begin_detach()
    }

    /// Whether every admitted command has its result, so that the detach frame
    /// may be sent.
    pub fn detach_ready(&self) -> (r: Option<Result<(), ClientError>>)
        requires
            self.wf(),
        ensures
            self@.commands.pending.len() == 0 ==> (r matches Some(Ok(_))),
            self@.commands.pending.len() > 0 ==> r is None,
    {
        self.commands.drained()
    }

    /// Whether the detach frame reached the connection writer.
    pub fn detach_queued(queued: bool) -> (r: Result<(), ClientError>)
        ensures
            r == (if queued {
                Ok::<(), ClientError>(())
            } else {
                Err(
                    ClientError::AttachmentUnavailable {
                        reason: AttachmentUnavailableReason::Closed,
                    },
                )
            }),
    {
        if queued {
            Ok(())
        } else {
            Err(ClientError::AttachmentUnavailable { reason: AttachmentUnavailableReason::Closed })
        }
    }

    /// Whether the detach was acknowledged; `None` while that is open.
    pub fn detached(&self) -> (r: Option<Result<(), ClientError>>)
        ensures
            match self@.commands.end {
                Some(AttachmentEnd::Detached) => r matches Some(Ok(_)),
                Some(AttachmentEnd::Terminated) => r matches Some(Err(e)) && e is Closed,
                None => r is None,
            },
    {
        self.commands.detached()
    }

    /// End the attachment abruptly. Commands without their unique result become
    /// unknown; the Run is not affected.
    pub fn close(&mut self) -> (r: Vec<CommandResult>)
        requires
            old(self).wf(),
        ensures
            final(self).wf(),
            r@ == old(self)@.lost(AttachmentUnknownReason::ClosedLocally),
            final(self)@ == old(self)@.terminated(None),
    {
        self.terminate(AttachmentUnknownReason::ClosedLocally, None)
    }

    /// End the attachment because its writer failed.
    pub fn writer_failed(&mut self, error: ClientError) -> (r: Vec<CommandResult>)
        requires
            old(self).wf(),
        ensures
            final(self).wf(),
            r@ == old(self)@.lost(AttachmentUnknownReason::TransportTerminated),
            final(self)@ == old(self)@.terminated(Some(error)),
    {
        self.terminate(AttachmentUnknownReason::TransportTerminated, Some(error))
    }

    fn terminate(&mut self, reason: AttachmentUnknownReason, event_error: Option<ClientError>) -> (r:
        Vec<CommandResult>)
        requires
            old(self).wf(),
        ensures
            final(self).wf(),
            r@ == old(self)@.lost(reason),
            final(self)@ == old(self)@.terminated(event_error),
    {
        let ghost before = self@;
        let mut results: Vec<CommandResult> = Vec::new();
        match self.commands.terminate() {
            None => {
                assert(results@ =~= before.lost(reason));
            },
            Some(pending) => {
                let mut i: usize = 0;
                while i < pending.len()
                    invariant
                        i <= pending@.len(),
                        results@.len() == i,
                        forall|k: int|
                            0 <= k < i ==> #[trigger] results@[k] == (CommandResult {
                                command_id: pending@[k].id,
                                resolution: PendingResolution::Unknown(reason),
                            }),
                    decreases pending@.len() - i,
                {
                    results.push(
                        CommandResult {
                            command_id: pending[i].id,
                            resolution: PendingResolution::Unknown(reason),
                        },
                    );
                    i = i + 1;
                }
                self.events.close(event_error);
                assert(results@ =~= before.lost(reason));
            },
        }
        results
    }

    fn receive(&mut self, frame: ServerFrame) -> (r: Result<Vec<CommandResult>, &'static str>)
        requires
            old(self).wf(),
            !(frame is Error),
        ensures
            final(self).wf(),
            match old(self)@.violation(frame) {
                Some(message) => {
                    &&& r matches Err(text) && text@ == message
                    &&& final(self)@ == old(self)@
                },
                None => {
                    &&& r matches Ok(results) && results@ == old(self)@.resolved(frame)
                    &&& final(self)@ == old(self)@.received(frame)
                },
            },
    {
        let mut results: Vec<CommandResult> = Vec::new();
        match frame {
            ServerFrame::Event { event } => match self.events.push(event) {
                Ok(()) => Ok(results),
                Err(message) => Err(message),
            },
            ServerFrame::CommandResult { command_id, outcome } => match self.commands
                .resolve_command(command_id, outcome) {
                Ok(resolution) => {
                    results.push(CommandResult { command_id, resolution });
                    assert(results@ =~= old(self)@.resolved(frame));
                    Ok(results)
                },
                Err(message) => Err(message),
            },
            ServerFrame::Detached => match self.commands.finish_detach() {
                Ok(()) => {
                    self.events.close(None);
                    Ok(results)
                },
                Err(message) => Err(message),
            },
            _ => Err("daemon sent a non-attachment frame after attach"),
        }
    }

    /// Act on what the connection reader saw. A frame that violates the
    /// protocol ends the attachment and leaves every waiting command unknown.
    pub fn reader_loop(&mut self, seen: ReaderEvent) -> (r: ReaderStep)
        requires
            old(self).wf(),
        ensures
            final(self).wf(),
            ({
                let before = old(self)@;
                match seen {
                    ReaderEvent::Undecodable(reason) => {
                        &&& r.done
                        &&& r.results@ == before.lost(AttachmentUnknownReason::ProtocolViolation)
                        &&& final(self)@ == before.terminated(Some(ClientError::Frame(reason)))
                    },
                    ReaderEvent::TransportFailed(reason) => {
                        &&& r.done
                        &&& r.results@ == before.lost(AttachmentUnknownReason::TransportTerminated)
                        &&& final(self)@ == before.terminated(Some(ClientError::Transport(reason)))
                    },
                    ReaderEvent::EndOfStream => {
                        &&& r.done
                        &&& r.results@ == before.lost(AttachmentUnknownReason::TransportTerminated)
                        &&& final(self)@ == before.terminated(
                            if before.events.saw_terminal {
                                None
                            } else {
                                Some(ClientError::Closed)
                            },
                        )
                    },
                    ReaderEvent::Frame(ServerFrame::Error { error }) => {
                        &&& r.done
                        &&& r.results@ == before.lost(AttachmentUnknownReason::ProtocolViolation)
                        &&& final(self)@ == before.terminated(
                            Some(ClientError::Protocol { code: error.code, message: error.message }),
                        )
                    },
                    ReaderEvent::Frame(frame) => match before.violation(frame) {
                        None => {
                            &&& r.done == (frame is Detached)
                            &&& r.results@ == before.resolved(frame)
                            &&& final(self)@ == before.received(frame)
                        },
                        Some(message) => {
                            &&& r.done
                            &&& r.results@ == before.lost(
                                AttachmentUnknownReason::ProtocolViolation,
                            )
                            &&& exists|violation: ClientError| #[trigger]
                                violation.violates(message) && final(self)@ == before.terminated(
                                    Some(violation),
                                )
                        },
                    },
                }
            }),
    {
        let frame = match seen {
            ReaderEvent::Frame(frame) => frame,
            ReaderEvent::Undecodable(reason) => {
                let results = self.terminate(
                    AttachmentUnknownReason::ProtocolViolation,
                    Some(ClientError::Frame(reason)),
                );
                return ReaderStep { results, done: true };
            },
            ReaderEvent::TransportFailed(reason) => {
                let results = self.terminate(
                    AttachmentUnknownReason::TransportTerminated,
                    Some(ClientError::Transport(reason)),
                );
                return ReaderStep { results, done: true };
            },
            ReaderEvent::EndOfStream => {
                let event_error = if self.events.saw_terminal() {
                    None
                } else {
                    Some(ClientError::Closed)
                };
                let results = self.terminate(
                    AttachmentUnknownReason::TransportTerminated,
                    event_error,
                );
                return ReaderStep { results, done: true };
            },
        };
        if let ServerFrame::Error { error } = frame {
            let results = self.terminate(
                AttachmentUnknownReason::ProtocolViolation,
                Some(ClientError::from_protocol(error)),
            );
            return ReaderStep { results, done: true };
        }
        let detached = matches!(frame, ServerFrame::Detached);
        match self.receive(frame) {
            Ok(results) => ReaderStep { results, done: detached },
            Err(message) => {
                let violation = ClientError::ProtocolContractViolation(message);
                assert(violation.violates(message@));
                let results = self.terminate(
                    AttachmentUnknownReason::ProtocolViolation,
                    Some(violation),
                );
                ReaderStep { results, done: true }
            },
        }
    }
}

/// Every waiting command is resolved by termination, and afterwards nothing
/// waits: no command is left without a result.
pub proof fn law_termination_resolves_every_command(
    attachment: AttachmentView,
    reason: AttachmentUnknownReason,
    error: Option<ClientError>,
    place: int,
)
    requires
        attachment.commands.valid(),
        0 <= place < attachment.commands.pending.len(),
    ensures
        attachment.terminated(error).commands.pending.len() == 0,
        attachment.lost(reason)[place] == (CommandResult {
            command_id: attachment.commands.pending[place].id,
            resolution: PendingResolution::Unknown(reason),
        }),
{
}

/// Once an attachment has ended, failures and frames change neither its
/// commands nor its events and bring no results. Every frame is refused but an
/// error, which ends the attachment, and the acknowledgement of a detach that
/// was asked for; where that has ended the attachment before, it changes
/// nothing either.
pub proof fn law_ended_attachment_stays_ended(
    attachment: AttachmentView,
    frame: ServerFrame,
    reason: AttachmentUnknownReason,
    error: Option<ClientError>,
)
    requires
        attachment.valid(),
        attachment.commands.end is Some,
    ensures
        attachment.terminated(error) == attachment,
        attachment.lost(reason) == Seq::<CommandResult>::empty(),
        attachment.violation(frame) is None ==> frame is Error || frame is Detached,
        frame is Detached && attachment.commands.end == Some(AttachmentEnd::Detached)
            ==> attachment.received(frame) == attachment,
        frame is Detached ==> attachment.resolved(frame) == Seq::<CommandResult>::empty(),
{
}

} // verus!

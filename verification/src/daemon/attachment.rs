//! One attachment connection: replay first, then live events and correlated
//! control results.
//!
//! The caller moves frames and events; what to send, and when the connection
//! ends, is decided here.

use vstd::prelude::*;

use crate::protocol::{
    protocol_error, AttachedSnapshot, AttachedSnapshotHeader, AttachmentCommandId, ClientFrame,
    ControlOutcome, ControlResult, ErrorCode, OutputChunk, OutputReplayHeader, ProtocolError,
    RunEvent, RunState, ServerFrame, TerminalSize,
};

verus! {

/// Whether a command number follows the last one: numbers start at one and
/// increase.
pub open spec fn follows(last: Option<AttachmentCommandId>, next: AttachmentCommandId) -> bool {
    match last {
        None => next.number == 1,
        Some(last) => next.number > last.number,
    }
}

/// Take a command number, if it follows the last one. A refused number changes
/// nothing.
pub fn observe_command_id(
    last: &mut Option<AttachmentCommandId>,
    command_id: AttachmentCommandId,
) -> (r: Result<(), ProtocolError>)
    ensures
        if follows(*old(last), command_id) {
            r is Ok && *final(last) == Some(command_id)
        } else {
            &&& r matches Err(e) && e.says(
                ErrorCode::InvalidRequest,
                "attachment command ids must start at 1 and then increase strictly"@,
            )
            &&& *final(last) == *old(last)
        },
{
    let valid = match last {
        None => command_id.number == 1,
        Some(last) => command_id.number > last.number,
    };
    if !valid {
        return Err(
            protocol_error(
                ErrorCode::InvalidRequest,
                "attachment command ids must start at 1 and then increase strictly",
            ),
        );
    }
    *last = Some(command_id);
    Ok(())
}

/// The event that tells of the end of a Run.
pub fn terminal_event(state: RunState) -> (r: RunEvent)
    requires
        !(state is Running),
    ensures
        r == event_of_end(state),
{
    match state {
        RunState::Interrupted { reason } => RunEvent::Interrupted { reason },
        state => RunEvent::Exited { state },
    }
}

/// The event that tells of the end of a Run.
pub open spec fn event_of_end(state: RunState) -> RunEvent {
    match state {
        RunState::Interrupted { reason } => RunEvent::Interrupted { reason },
        state => RunEvent::Exited { state },
    }
}

/// The outcome of a control command as it is sent.
pub open spec fn outcome_of(result: ControlResult) -> ControlOutcome {
    match result {
        Ok(receipt) => ControlOutcome::Accepted { receipt },
        Err(failure) => ControlOutcome::Rejected { failure },
    }
}

/// The outcome of a control command as it is sent.
pub fn outcome(result: ControlResult) -> (r: ControlOutcome)
    ensures
        r == outcome_of(result),
{
    match result {
        Ok(receipt) => ControlOutcome::Accepted { receipt },
        Err(failure) => ControlOutcome::Rejected { failure },
    }
}

/// Split a snapshot into its first frame, its output and the state of its Run.
pub fn split_snapshot(snapshot: AttachedSnapshot) -> (r: (
    AttachedSnapshotHeader,
    Vec<OutputChunk>,
    RunState,
))
    ensures
        r.0.run == snapshot.run,
        r.0.replay.first_available_byte == snapshot.replay.first_available_byte,
        r.0.replay.latest_output_bytes == snapshot.replay.latest_output_bytes,
        r.0.replay.truncated == snapshot.replay.truncated,
        r.1 == snapshot.replay.chunks,
        r.2 == snapshot.run.state,
{
    let state = snapshot.run.state.copied();
    let AttachedSnapshot { run, replay } = snapshot;
    let header = AttachedSnapshotHeader {
        run,
        replay: OutputReplayHeader {
            first_available_byte: replay.first_available_byte,
            latest_output_bytes: replay.latest_output_bytes,
            truncated: replay.truncated,
        },
    };
    (header, replay.chunks, state)
}

/// A control command of the client.
#[derive(Debug, PartialEq, Eq)]
pub enum ControlCommand {
    Input(Vec<u8>),
    Resize(TerminalSize),
    Stop,
}

/// What a control command came to when it was handed to the Run.
#[derive(Debug, PartialEq, Eq)]
pub enum ControlStart {
    /// Its result comes later.
    Pending,
    /// Its result is known.
    Settled(ControlResult),
}

/// What the Run's event stream brought.
#[derive(Debug, PartialEq, Eq)]
pub enum LiveEvent {
    Event(RunEvent),
    /// Events were lost; the Run has produced this many bytes by now.
    Lagged { latest_output_bytes: u64 },
    Closed,
}

/// What the connection does next.
#[derive(Debug, PartialEq, Eq)]
pub enum FrameAction {
    /// Send these frames; then the connection ends where `done` is set.
    Send(Step),
    /// Hand a command to the Run and report what it came to.
    Control { command_id: AttachmentCommandId, command: ControlCommand },
}

/// Frames to send in order, and whether the connection then ends.
#[derive(Debug, PartialEq, Eq)]
pub struct Step {
    pub frames: Vec<ServerFrame>,
    pub done: bool,
}

/// State of one attachment connection.
pub struct ServerView {
    pub sent_through_byte: u64,
    pub last_command_id: Option<AttachmentCommandId>,
    pub pending_stop: Option<AttachmentCommandId>,
    pub held_terminal: Option<RunEvent>,
}

impl ServerView {
    /// An end is held back only while a stop waits for its result.
    pub open spec fn valid(&self) -> bool {
        self.held_terminal matches Some(event) ==> self.pending_stop is Some && (event is Exited
            || event is Interrupted)
    }

    /// Whether a step is what an event of the Run leads to.
    pub open spec fn reacts(&self, event: LiveEvent, after: ServerView, step: Step) -> bool {
        match event {
            LiveEvent::Closed => after == *self && step.frames@.len() == 0 && step.done,
            LiveEvent::Lagged { latest_output_bytes } => {
                &&& after == (ServerView { sent_through_byte: latest_output_bytes, ..*self })
                &&& step.frames@ == seq![
                    ServerFrame::Event { event: RunEvent::Gap { latest_output_bytes } },
                ]
                &&& !step.done
            },
            LiveEvent::Event(RunEvent::Output { chunk }) => if chunk.end_byte
                <= self.sent_through_byte {
                after == *self && step.frames@.len() == 0 && !step.done
            } else {
                &&& after == (ServerView { sent_through_byte: chunk.end_byte, ..*self })
                &&& step.frames@ == seq![ServerFrame::Event { event: RunEvent::Output { chunk } }]
                &&& !step.done
            },
            LiveEvent::Event(event) => if event is Exited || event is Interrupted {
                if self.pending_stop is Some {
                    &&& after == (ServerView { held_terminal: Some(event), ..*self })
                    &&& step.frames@.len() == 0
                    &&& !step.done
                } else {
                    &&& after == *self
                    &&& step.frames@ == seq![ServerFrame::Event { event }]
                    &&& step.done
                }
            } else {
                &&& after == *self
                &&& step.frames@ == seq![ServerFrame::Event { event }]
                &&& !step.done
            },
        }
    }

    /// Whether a step is what the result of a command leads to.
    pub open spec fn resolves(
        &self,
        command_id: AttachmentCommandId,
        outcome: ControlOutcome,
        after: ServerView,
        step: Step,
    ) -> bool {
        let result = ServerFrame::CommandResult { command_id, outcome };
        if self.pending_stop == Some(command_id) {
            match self.held_terminal {
                Some(event) => {
                    &&& after == (ServerView { pending_stop: None, held_terminal: None, ..*self })
                    &&& step.frames@ == seq![result, ServerFrame::Event { event }]
                    &&& step.done
                },
                None => {
                    &&& after == (ServerView { pending_stop: None, ..*self })
                    &&& step.frames@ == seq![result]
                    &&& !step.done
                },
            }
        } else {
            &&& after == *self
            &&& step.frames@ == seq![result]
            &&& !step.done
        }
    }

    /// Whether a frame of the client carries a control command, and which.
    pub open spec fn command_of(frame: ClientFrame) -> Option<(AttachmentCommandId, ControlCommand)> {
        match frame {
            ClientFrame::Input { command_id, data } => Some(
                (command_id, ControlCommand::Input(data)),
            ),
            ClientFrame::Resize { command_id, size } => Some(
                (command_id, ControlCommand::Resize(size)),
            ),
            ClientFrame::Stop { command_id } => Some((command_id, ControlCommand::Stop)),
            _ => None,
        }
    }

    /// Whether an action is what a frame of the client leads to; `None` is the
    /// end of its stream.
    pub open spec fn accepts(
        &self,
        frame: Option<ClientFrame>,
        after: ServerView,
        action: FrameAction,
    ) -> bool {
        match frame {
            None => after == *self && (action matches FrameAction::Send(step)
                && step.frames@.len() == 0 && step.done),
            Some(ClientFrame::Detach) => after == *self && (action matches FrameAction::Send(step)
                && step.frames@ == seq![ServerFrame::Detached] && step.done),
            Some(frame) => match ServerView::command_of(frame) {
                None => after == *self && (action matches FrameAction::Send(step)
                    && step.frames@.len() == 1 && is_invalid_request(
                    step.frames@[0],
                    "frame is not valid during attachment"@,
                ) && !step.done),
                Some((command_id, command)) => if follows(self.last_command_id, command_id) {
                    &&& after == (ServerView { last_command_id: Some(command_id), ..*self })
                    &&& action == (FrameAction::Control { command_id, command })
                } else {
                    &&& after == *self
                    &&& action matches FrameAction::Send(step) && step.frames@.len() == 1
                        && is_invalid_request(
                        step.frames@[0],
                        "attachment command ids must start at 1 and then increase strictly"@,
                    ) && step.done
                },
            },
        }
    }
}

/// Whether a frame is the error of an invalid request with this detail.
pub open spec fn is_invalid_request(frame: ServerFrame, message: Seq<char>) -> bool {
    frame matches ServerFrame::Error { error } && error.says(ErrorCode::InvalidRequest, message)
}

/// The error frame of an invalid request.
pub fn invalid_request(message: &str) -> (r: ServerFrame)
    ensures
        is_invalid_request(r, message@),
{
    ServerFrame::Error { error: protocol_error(ErrorCode::InvalidRequest, message) }
}

fn one(frame: ServerFrame) -> (r: Vec<ServerFrame>)
    ensures
        r@ == seq![frame],
{
    let mut frames: Vec<ServerFrame> = Vec::new();
    frames.push(frame);
    assert(frames@ =~= seq![frame]);
    frames
}

/// The frames that bring chunks of output.
pub open spec fn output_frames(chunks: Seq<OutputChunk>) -> Seq<ServerFrame> {
    chunks.map_values(
        |chunk: OutputChunk| ServerFrame::Event { event: RunEvent::Output { chunk } },
    )
}

/// One attachment connection.
pub struct AttachmentServer {
    sent_through_byte: u64,
    last_command_id: Option<AttachmentCommandId>,
    pending_stop: Option<AttachmentCommandId>,
    held_terminal: Option<RunEvent>,
}

impl AttachmentServer {
    /// State of this connection.
    pub closed spec fn view(&self) -> ServerView {
        ServerView {
            sent_through_byte: self.sent_through_byte,
            last_command_id: self.last_command_id,
            pending_stop: self.pending_stop,
            held_terminal: self.held_terminal,
        }
    }

    /// Begin an attachment with the state of its Run: the header, then all
    /// retained output, then the end of a Run that has ended. A Run that is not
    /// available is an error and ends the connection.
    pub fn handle(pinned: Result<AttachedSnapshot, ProtocolError>) -> (r: (AttachmentServer, Step))
        ensures
            r.0@.valid(),
            match pinned {
                Err(error) => r.1.frames@ == seq![ServerFrame::Error { error }] && r.1.done,
                Ok(snapshot) => {
                    &&& r.0@ == (ServerView {
                        sent_through_byte: snapshot.replay.latest_output_bytes,
                        last_command_id: None,
                        pending_stop: None,
                        held_terminal: None,
                    })
                    &&& r.1.done == !(snapshot.run.state is Running)
                    &&& r.1.frames@ == seq![r.1.frames@[0]] + output_frames(
                        snapshot.replay.chunks@,
                    ) + (if snapshot.run.state is Running {
                        seq![]
                    } else {
                        seq![ServerFrame::Event { event: event_of_end(snapshot.run.state) }]
                    })
                    &&& r.1.frames@[0] matches ServerFrame::Attached { snapshot: header }
                        && header.run == snapshot.run && header.replay == (OutputReplayHeader {
                        first_available_byte: snapshot.replay.first_available_byte,
                        latest_output_bytes: snapshot.replay.latest_output_bytes,
                        truncated: snapshot.replay.truncated,
                    })
                },
            },
    {
        let snapshot = match pinned {
            Ok(snapshot) => snapshot,
            Err(error) => {
                let server = AttachmentServer {
                    sent_through_byte: 0,
                    last_command_id: None,
                    pending_stop: None,
                    held_terminal: None,
                };
                return (server, Step { frames: one(ServerFrame::Error { error }), done: true });
            },
        };
        let ghost given = snapshot;
        let (header, chunks, state) = split_snapshot(snapshot);
        let server = AttachmentServer {
            sent_through_byte: header.replay.latest_output_bytes,
            last_command_id: None,
            pending_stop: None,
            held_terminal: None,
        };
        let mut frames = one(ServerFrame::Attached { snapshot: header });
        let ghost first = frames@[0];
        let ghost all = chunks@;
        let mut rest = chunks;
        let mut reversed: Vec<OutputChunk> = Vec::new();
        assert(all.take(all.len() as int) =~= all);
        while rest.len() > 0
            invariant
                rest@ == all.take(rest@.len() as int),
                rest@.len() + reversed@.len() == all.len(),
                forall|k: int|
                    0 <= k < reversed@.len() ==> #[trigger] reversed@[k] == all[all.len() - 1 - k],
            decreases rest@.len(),
        {
            match rest.pop() {
                Some(chunk) => {
                    assert(rest@ =~= all.take(rest@.len() as int));
                    reversed.push(chunk);
                },
                None => {},
            }
        }
        assert(frames@ =~= seq![first] + output_frames(all.take(0)));
        while reversed.len() > 0
            invariant
                reversed@.len() <= all.len(),
                forall|k: int|
                    0 <= k < reversed@.len() ==> #[trigger] reversed@[k] == all[all.len() - 1 - k],
                frames@ == seq![first] + output_frames(all.take(all.len() - reversed@.len())),
            decreases reversed@.len(),
        {
            let ghost sent = all.len() - reversed@.len();
            match reversed.pop() {
                Some(chunk) => {
                    assert(chunk == all[sent]);
                    frames.push(ServerFrame::Event { event: RunEvent::Output { chunk } });
                    assert(output_frames(all.take(sent + 1)) =~= output_frames(
                        all.take(sent),
                    ).push(ServerFrame::Event { event: RunEvent::Output { chunk: all[sent] } }));
                    assert(frames@ =~= seq![first] + output_frames(all.take(sent + 1)));
                },
                None => {},
            }
        }
        assert(all.take(all.len() as int) =~= all);
        let done = !matches!(state, RunState::Running);
        if done {
            let ghost before = frames@;
            let event = terminal_event(state);
            frames.push(ServerFrame::Event { event });
            assert(frames@ =~= before + seq![ServerFrame::Event { event: event_of_end(state) }]);
        } else {
            assert(frames@ =~= frames@ + seq![]);
        }
        (server, Step { frames, done })
    }

    /// Send the result of a command. The end of the Run that a stop brought
    /// about follows its result.
    pub fn command_result(
        &mut self,
        command_id: AttachmentCommandId,
        outcome: ControlOutcome,
    ) -> (r: Step)
        requires
            old(self)@.valid(),
        ensures
            final(self)@.valid(),
            old(self)@.resolves(command_id, outcome, final(self)@, r),
    {
        let ghost result = ServerFrame::CommandResult { command_id, outcome };
        let mut frames = one(ServerFrame::CommandResult { command_id, outcome });
        let is_stop = match self.pending_stop {
            Some(pending) => pending == command_id,
            None => false,
        };
        if is_stop {
            self.pending_stop = None;
            if let Some(event) = self.held_terminal.take() {
                frames.push(ServerFrame::Event { event });
                assert(frames@ =~= seq![result, ServerFrame::Event { event }]);
                return Step { frames, done: true };
            }
        }
        Step { frames, done: false }
    }

    /// Act on a frame of the client.
    pub fn handle_frame(&mut self, frame: Option<ClientFrame>) -> (r: FrameAction)
        requires
            old(self)@.valid(),
        ensures
            final(self)@.valid(),
            old(self)@.accepts(frame, final(self)@, r),
    {
        let frame = match frame {
            None => {
                return FrameAction::Send(Step { frames: Vec::new(), done: true });
            },
            Some(frame) => frame,
        };
        let (command_id, command) = match frame {
            ClientFrame::Input { command_id, data } => (command_id, ControlCommand::Input(data)),
            ClientFrame::Resize { command_id, size } => (command_id, ControlCommand::Resize(size)),
            ClientFrame::Stop { command_id } => (command_id, ControlCommand::Stop),
            ClientFrame::Detach => {
                return FrameAction::Send(Step { frames: one(ServerFrame::Detached), done: true });
            },
            _ => {
                return FrameAction::Send(
                    Step {
                        frames: one(invalid_request("frame is not valid during attachment")),
                        done: false,
                    },
                );
            },
        };
        match observe_command_id(&mut self.last_command_id, command_id) {
            Err(error) => FrameAction::Send(
                Step { frames: one(ServerFrame::Error { error }), done: true },
            ),
            Ok(()) => FrameAction::Control { command_id, command },
        }
    }

    /// Report what a command came to when it was handed to the Run.
    pub fn control_started(
        &mut self,
        command_id: AttachmentCommandId,
        is_stop: bool,
        start: ControlStart,
    ) -> (r: Step)
        requires
            old(self)@.valid(),
        ensures
            final(self)@.valid(),
            !r.done,
            match start {
                ControlStart::Pending => {
                    &&& r.frames@.len() == 0
                    &&& final(self)@ == (if is_stop {
                        ServerView { pending_stop: Some(command_id), ..old(self)@ }
                    } else {
                        old(self)@
                    })
                },
                ControlStart::Settled(result) => {
                    &&& r.frames@ == seq![
                        ServerFrame::CommandResult { command_id, outcome: outcome_of(result) },
                    ]
                    &&& final(self)@ == old(self)@
                },
            },
    {
        match start {
            ControlStart::Pending => {
                if is_stop {
                    self.pending_stop = Some(command_id);
                }
                Step { frames: Vec::new(), done: false }
            },
            ControlStart::Settled(result) => Step {
                frames: one(ServerFrame::CommandResult { command_id, outcome: outcome(result) }),
                done: false,
            },
        }
    }

    /// Act on what the Run's event stream brought. Output that the replay
    /// already covered is not sent again; an end is held back while a stop
    /// waits for its result.
    pub fn live_event(&mut self, event: LiveEvent) -> (r: Step)
        requires
            old(self)@.valid(),
        ensures
            final(self)@.valid(),
            old(self)@.reacts(event, final(self)@, r),
    {
        match event {
            LiveEvent::Closed => Step { frames: Vec::new(), done: true },
            LiveEvent::Lagged { latest_output_bytes } => {
                self.sent_through_byte = latest_output_bytes;
                Step {
                    frames: one(
                        ServerFrame::Event { event: RunEvent::Gap { latest_output_bytes } },
                    ),
                    done: false,
                }
            },
            LiveEvent::Event(RunEvent::Output { chunk }) => {
                if chunk.end_byte <= self.sent_through_byte {
                    return Step { frames: Vec::new(), done: false };
                }
                self.sent_through_byte = chunk.end_byte;
                Step {
                    frames: one(ServerFrame::Event { event: RunEvent::Output { chunk } }),
                    done: false,
                }
            },
            LiveEvent::Event(event) => {
                let ends = match &event {
                    RunEvent::Exited { .. } => true,
                    RunEvent::Interrupted { .. } => true,
                    _ => false,
                };
                if ends && self.pending_stop.is_some() {
                    self.held_terminal = Some(event);
                    return Step { frames: Vec::new(), done: false };
                }
                Step { frames: one(ServerFrame::Event { event }), done: ends }
            },
        }
    }
}

/// Output that was sent is not sent again: whatever is sent ends later than
/// all that was sent before.
pub proof fn law_output_is_sent_once(
    before: ServerView,
    event: LiveEvent,
    after: ServerView,
    step: Step,
)
    requires
        before.reacts(event, after, step),
        event matches LiveEvent::Lagged { latest_output_bytes } ==> latest_output_bytes
            >= before.sent_through_byte,
    ensures
        after.sent_through_byte >= before.sent_through_byte,
        forall|i: int|
            0 <= i < step.frames@.len() ==> (#[trigger] step.frames@[i] matches ServerFrame::Event {
                event: RunEvent::Output { chunk },
            } ==> chunk.end_byte > before.sent_through_byte && chunk.end_byte
                == after.sent_through_byte),
{
}

/// The result of a stop comes before the end that it brought about, and the
/// end is not lost: it is sent at once or right after that result.
pub proof fn law_stop_result_precedes_the_end(
    before: ServerView,
    event: RunEvent,
    held: ServerView,
    quiet: Step,
    command_id: AttachmentCommandId,
    outcome: ControlOutcome,
    after: ServerView,
    step: Step,
)
    requires
        before.pending_stop == Some(command_id),
        event is Exited || event is Interrupted,
        before.reacts(LiveEvent::Event(event), held, quiet),
        held.resolves(command_id, outcome, after, step),
    ensures
        quiet.frames@.len() == 0,
        step.frames@ == seq![
            ServerFrame::CommandResult { command_id, outcome },
            ServerFrame::Event { event },
        ],
        step.done,
{
}

/// Accepted command numbers increase without end to end repetition.
pub proof fn law_accepted_command_ids_increase(
    before: ServerView,
    frame: ClientFrame,
    after: ServerView,
    action: FrameAction,
)
    requires
        before.accepts(Some(frame), after, action),
    ensures
        action matches FrameAction::Control { command_id, .. } ==> (before.last_command_id
            matches Some(last) ==> command_id.number > last.number) && after.last_command_id
            == Some(command_id),
{
}

} // verus!

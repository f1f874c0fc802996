//! One Run as the daemon owns it: its lifecycle state, its retained output,
//! its live readers, and the durable record that follows it.

use vstd::prelude::*;

use crate::daemon::output_log::{LogView, OutputLog};
use crate::daemon::owners::{TerminalOrdinal, TerminalPublicationOwner};
use crate::daemon::registry::RunFacts;
use crate::daemon::tmux_control::{ControlItem, ItemStep, StreamEvent, TmuxObservation};
use crate::identity::RunId;
use crate::output::{bytes_of, chunk_views};
use crate::protocol::{
    control_failure_not_applied, native_capabilities, tmux_read_only_capabilities,
    AttachedSnapshot, CommandDisposition, ControlFailure, ErrorCode, InterruptionReason,
    OutputReplay, ProtocolError, RunBackend, RunCapabilities, RunEvent, RunInfo, RunLineage,
    RunSpec, RunState, TerminalSize, TmuxPaneInfo,
};
use crate::run_spec::{copied_spec, size_defect, spec_view, validate_terminal_size, RunSpecView};
use crate::text::{decimal, decimal_text, joined, joined3, owned};

verus! {

/// Whether a Run can have a durable record.
#[derive(Debug, Clone, Copy, PartialEq, Eq, Structural)]
pub enum PersistenceMode {
    MemoryOnly,
    PersistentCapable,
}

/// What controls the incarnation of a live Run.
#[derive(Debug, Clone, Copy, PartialEq, Eq, Structural)]
pub enum RunControl {
    Native,
    Tmux,
}

/// How far the durable record of a Run is bound to it. Until the record is
/// active, an end of the Run is held here instead of becoming visible.
#[derive(Debug, PartialEq, Eq)]
pub enum PersistenceBinding {
    Disabled,
    Pending { terminal: Option<RunState> },
    CommittedPendingActivation { terminal: Option<RunState> },
    Active,
}

impl PersistenceBinding {
    /// Whether a record was committed.
    pub open spec fn is_durable(&self) -> bool {
        self is CommittedPendingActivation || self is Active
    }

    /// The end that waits for activation.
    pub open spec fn held(&self) -> Option<RunState> {
        match *self {
            PersistenceBinding::Pending { terminal } => terminal,
            PersistenceBinding::CommittedPendingActivation { terminal } => terminal,
            _ => None,
        }
    }
}

/// Work for the durable record.
#[derive(Debug, PartialEq, Eq)]
pub enum DurableWork {
    Append { replay: OutputReplay },
    Finalize { pid: u32, replay: OutputReplay, state: RunState },
}

impl DurableWork {
    /// Whether this appends the output after a cursor.
    pub open spec fn appends(&self, output: LogView, after: u64) -> bool {
        self matches DurableWork::Append { replay } && output.replays(after, *replay)
    }

    /// Whether this finalizes with all retained output and the given end.
    pub open spec fn finalizes(&self, output: LogView, pid: Option<u32>, terminal: RunState)
     -> bool {
        self matches DurableWork::Finalize { pid: owner, replay, state } && Some(*owner) == pid
            && output.replays(0, *replay) && *state == terminal
    }
}

/// What follows from one change of a Run: first the durable work, then the
/// event for live readers.
#[derive(Debug, PartialEq, Eq)]
pub struct RunEffects {
    pub durable: Option<DurableWork>,
    pub event: Option<RunEvent>,
}

impl RunEffects {
    /// Whether nothing follows.
    pub open spec fn is_nothing(&self) -> bool {
        self.durable is None && self.event is None
    }
}

/// Facts that only the owners of a Run know.
#[derive(Debug, Clone, Copy)]
pub struct OwnerCursors {
    /// Input bytes that the native control has applied.
    pub applied_input_bytes: u64,
    /// Output bytes in the durable record.
    pub durable_output_bytes: u64,
}

/// A Run that a durable record brought back.
#[derive(Debug, PartialEq, Eq)]
pub struct RecoveredRun {
    pub info: RunInfo,
    pub replay: OutputReplay,
}

impl RecoveredRun {
    /// The retained output that the record brings back.
    pub open spec fn log(&self) -> LogView {
        LogView {
            chunks: chunk_views(self.replay.chunks@),
            latest: self.replay.latest_output_bytes,
            gap: None,
        }
    }

    /// Whether the record's output has no hole and fits in memory.
    pub open spec fn valid(&self) -> bool {
        self.log().valid() && bytes_of(self.log().chunks).len() <= usize::MAX
    }
}

/// The state in which a restart without adoption leaves a Run.
pub open spec fn past_state(state: RunState) -> RunState {
    match state {
        RunState::Running => RunState::Interrupted { reason: InterruptionReason::DaemonRestart },
        _ => state,
    }
}

/// State of one Run.
pub struct RunView {
    pub id: RunId,
    pub spec: Option<RunSpecView>,
    pub lineage: Option<RunLineage>,
    pub backend: RunBackend,
    pub capabilities: RunCapabilities,
    pub pid: Option<u32>,
    pub state: RunState,
    pub output: LogView,
    pub control: Option<RunControl>,
    pub mode: PersistenceMode,
    pub binding: PersistenceBinding,
    pub attachments: nat,
    pub live_ring: bool,
    pub ordinal: Option<TerminalOrdinal>,
}

impl RunView {
    /// What every Run keeps: it has a place in the order of endings only
    /// when it ended, live events have a ring exactly while someone reads
    /// them, and an end is held only for a Run that is still running.
    pub open spec fn valid(&self) -> bool {
        &&& self.output.valid()
        &&& self.ordinal is Some ==> !(self.state is Running)
        &&& self.live_ring <==> self.attachments > 0
        &&& self.mode == PersistenceMode::MemoryOnly <==> self.binding is Disabled
        &&& self.binding.held() matches Some(terminal) ==> !(terminal is Running)
        &&& self.binding is Pending || self.binding is CommittedPendingActivation
            ==> self.state is Running
        &&& self.mode == PersistenceMode::PersistentCapable && self.control is Some
            ==> self.pid is Some
    }

    /// This Run after it ended.
    pub open spec fn ended(&self, terminal: RunState, number: u64) -> RunView {
        RunView { state: terminal, ordinal: Some(TerminalOrdinal { number }), ..*self }
    }

    /// This Run once its child ended: where the record is not active yet, the
    /// end is held instead of becoming visible.
    pub open spec fn terminated(&self, terminal: RunState, number: u64) -> RunView {
        match self.binding {
            PersistenceBinding::Disabled | PersistenceBinding::Active => self.ended(
                terminal,
                number,
            ),
            PersistenceBinding::Pending { .. } => RunView {
                binding: PersistenceBinding::Pending { terminal: Some(terminal) },
                ..*self
            },
            PersistenceBinding::CommittedPendingActivation { .. } => RunView {
                binding: PersistenceBinding::CommittedPendingActivation {
                    terminal: Some(terminal),
                },
                ..*self
            },
        }
    }

    /// This Run once its record was committed.
    pub open spec fn committed(&self) -> RunView {
        RunView {
            binding: PersistenceBinding::CommittedPendingActivation {
                terminal: self.binding.held(),
            },
            ..*self
        }
    }

    /// This Run once its record is active; an end that was held becomes
    /// visible.
    pub open spec fn activated(&self, number: u64) -> RunView {
        let active = RunView { binding: PersistenceBinding::Active, ..*self };
        match self.binding.held() {
            Some(terminal) => active.ended(terminal, number),
            None => active,
        }
    }

    /// This Run with one more live reader.
    pub open spec fn subscribed(&self) -> RunView {
        RunView { attachments: self.attachments + 1, live_ring: true, ..*self }
    }

    /// This Run with one live reader less; the last one takes the ring with
    /// it.
    pub open spec fn released(&self) -> RunView {
        RunView {
            attachments: (self.attachments - 1) as nat,
            live_ring: self.attachments > 1,
            ..*self
        }
    }

    /// Whether an end can be recorded: none was so far.
    pub open spec fn can_end(&self) -> bool {
        self.ordinal is None && self.binding.held() is None
    }

    /// The place of this Run among Runs that may be collected.
    pub open spec fn collectable(&self, backend_quiescent: bool) -> Option<TerminalOrdinal> {
        let quiescent = match self.control {
            Some(_) => backend_quiescent,
            None => self.mode == PersistenceMode::PersistentCapable,
        };
        if self.attachments == 0 && quiescent {
            self.ordinal
        } else {
            None
        }
    }

    /// Whether `event` is what live readers get: `sent` where there are any.
    pub open spec fn tells(&self, event: Option<RunEvent>, sent: RunEvent) -> bool {
        event == (if self.attachments > 0 {
            Some(sent)
        } else {
            None
        })
    }

    /// Whether `info` describes this Run.
    pub open spec fn describes(&self, info: RunInfo, cursors: OwnerCursors) -> bool {
        &&& info.id == self.id
        &&& spec_view(info.spec) == self.spec
        &&& info.lineage == self.lineage
        &&& info.backend == self.backend
        &&& info.capabilities == self.capabilities
        &&& info.pid == self.pid
        &&& info.state == self.state
        &&& info.latest_output_bytes == self.output.latest
        &&& info.first_available_byte == self.output.first()
        &&& info.attachments == self.attachments
        &&& info.durable_output_bytes == (if self.binding.is_durable() {
            Some(cursors.durable_output_bytes)
        } else {
            None
        })
        &&& info.applied_input_bytes == (if self.control == Some(RunControl::Native) {
            Some(cursors.applied_input_bytes)
        } else {
            None
        })
    }

    /// The failure of a native control command that this Run cannot take.
    pub open spec fn control_refusal(&self) -> Option<(ErrorCode, Seq<char>)> {
        match self.control {
            Some(RunControl::Native) => None,
            Some(RunControl::Tmux) => Some(
                (
                    ErrorCode::UnsupportedCapability,
                    "Run "@ + self.id.text() + " backend does not support native control"@,
                ),
            ),
            None => Some(
                (ErrorCode::InvalidRunState, "cannot control historical Run "@ + self.id.text()),
            ),
        }
    }

    /// What a native Run is at its launch.
    pub open spec fn launched(
        id: RunId,
        spec: RunSpec,
        lineage: Option<RunLineage>,
        pid: Option<u32>,
        mode: PersistenceMode,
        run: RunView,
    ) -> bool {
        &&& run.capabilities.input && run.capabilities.resize && run.capabilities.stop
            && run.capabilities.fork_level_a && run.capabilities.fork_level_b
        &&& run == (RunView {
            id,
            spec: Some(spec@),
            lineage,
            backend: RunBackend::Native,
            capabilities: run.capabilities,
            pid,
            state: RunState::Running,
            output: LogView { chunks: seq![], latest: 0, gap: None },
            control: Some(RunControl::Native),
            mode,
            binding: match mode {
                PersistenceMode::MemoryOnly => PersistenceBinding::Disabled,
                PersistenceMode::PersistentCapable => PersistenceBinding::Pending {
                    terminal: None,
                },
            },
            attachments: 0,
            live_ring: false,
            ordinal: None,
        })
    }

    /// What a Run is that observes a tmux pane from now on.
    pub open spec fn observing(id: RunId, target: TmuxPaneInfo, run: RunView) -> bool {
        &&& !run.capabilities.input && !run.capabilities.resize && !run.capabilities.stop
            && !run.capabilities.fork_level_a && !run.capabilities.fork_level_b
        &&& run == (RunView {
            id,
            spec: None,
            lineage: None,
            backend: RunBackend::Tmux {
                socket_path: target.socket_path,
                server_pid: target.server_pid,
                server_started_at: target.server_started_at,
                session_id: target.session_id,
                window_id: target.window_id,
                pane_id: target.pane_id,
                tmux_version: target.tmux_version,
            },
            capabilities: run.capabilities,
            pid: Some(target.pane_pid),
            state: RunState::Running,
            output: LogView { chunks: seq![], latest: 0, gap: Some(0) },
            control: Some(RunControl::Tmux),
            mode: PersistenceMode::MemoryOnly,
            binding: PersistenceBinding::Disabled,
            attachments: 0,
            live_ring: false,
            ordinal: None,
        })
    }

    /// What a Run is that its durable record brought back.
    pub open spec fn recovered(
        recovered: RecoveredRun,
        pid: Option<u32>,
        control: Option<RunControl>,
        ordinal: Option<TerminalOrdinal>,
    ) -> RunView {
        RunView {
            id: recovered.info.id,
            spec: spec_view(recovered.info.spec),
            lineage: recovered.info.lineage,
            backend: recovered.info.backend,
            capabilities: recovered.info.capabilities,
            pid,
            state: recovered.info.state,
            output: recovered.log(),
            control,
            mode: PersistenceMode::PersistentCapable,
            binding: PersistenceBinding::Active,
            attachments: 0,
            live_ring: false,
            ordinal,
        }
    }

    /// A Run of an earlier incarnation that nobody adopted: what was running
    /// then was interrupted by the restart.
    pub open spec fn historical(recovered: RecoveredRun, number: u64) -> RunView {
        RunView {
            state: past_state(recovered.info.state),
            ..RunView::recovered(
                recovered,
                recovered.info.pid,
                None,
                Some(TerminalOrdinal { number }),
            )
        }
    }
}

/// One Run.
pub struct Run {
    id: RunId,
    spec: Option<RunSpec>,
    lineage: Option<RunLineage>,
    backend: RunBackend,
    capabilities: RunCapabilities,
    pid: Option<u32>,
    state: RunState,
    output: OutputLog,
    control: Option<RunControl>,
    mode: PersistenceMode,
    binding: PersistenceBinding,
    attachments: usize,
    live_ring: bool,
    ordinal: Option<TerminalOrdinal>,
}

impl Run {
    /// State of this Run.
    pub closed spec fn view(&self) -> RunView {
        RunView {
            id: self.id,
            spec: spec_view(self.spec),
            lineage: self.lineage,
            backend: self.backend,
            capabilities: self.capabilities,
            pid: self.pid,
            state: self.state,
            output: self.output@,
            control: self.control,
            mode: self.mode,
            binding: self.binding,
            attachments: self.attachments as nat,
            live_ring: self.live_ring,
            ordinal: self.ordinal,
        }
    }

    /// Whether the Run keeps its invariant.
    pub closed spec fn wf(&self) -> bool {
        self@.valid() && self.output.wf()
    }

    /// What a well-formed Run keeps.
    pub proof fn lemma_wf_is_valid(&self)
        requires
            self.wf(),
        ensures
            self@.valid(),
            self@.attachments <= usize::MAX,
    {
    }

    /// A native Run whose child has just started.
    pub fn new_native(
        id: RunId,
        spec: RunSpec,
        lineage: Option<RunLineage>,
        pid: Option<u32>,
        mode: PersistenceMode,
    ) -> (r: Run)
        requires
            mode == PersistenceMode::PersistentCapable ==> pid is Some,
        ensures
            r.wf(),
            RunView::launched(id, spec, lineage, pid, mode, r@),
    {
        let binding = match mode {
            PersistenceMode::MemoryOnly => PersistenceBinding::Disabled,
            PersistenceMode::PersistentCapable => PersistenceBinding::Pending { terminal: None },
        };
        Run {
            id,
            spec: Some(spec),
            lineage,
            backend: RunBackend::Native,
            capabilities: native_capabilities(),
            pid,
            state: RunState::Running,
            output: OutputLog::new(),
            control: Some(RunControl::Native),
            mode,
            binding,
            attachments: 0,
            live_ring: false,
            ordinal: None,
        }
    }

    /// A Run that observes a tmux pane. What the pane printed before is not
    /// known.
    pub fn new_tmux(id: RunId, target: &TmuxPaneInfo) -> (r: Run)
        ensures
            r.wf(),
            RunView::observing(id, *target, r@),
    {
        Run {
            id,
            spec: None,
            lineage: None,
            backend: RunBackend::Tmux {
                socket_path: target.socket_path.clone(),
                server_pid: target.server_pid,
                server_started_at: target.server_started_at,
                session_id: target.session_id.clone(),
                window_id: target.window_id.clone(),
                pane_id: target.pane_id.clone(),
                tmux_version: target.tmux_version.clone(),
            },
            capabilities: tmux_read_only_capabilities(),
            pid: Some(target.pane_pid),
            state: RunState::Running,
            output: OutputLog::with_initial_truncation(),
            control: Some(RunControl::Tmux),
            mode: PersistenceMode::MemoryOnly,
            binding: PersistenceBinding::Disabled,
            attachments: 0,
            live_ring: false,
            ordinal: None,
        }
    }

    /// A Run of an earlier incarnation, which has ended: one that was running
    /// then was interrupted by the restart. It takes the next place in the
    /// order of endings.
    pub fn recover(recovered: RecoveredRun, publications: &mut TerminalPublicationOwner) -> (r: Run)
        requires
            recovered.valid(),
            old(publications)@ < u64::MAX,
        ensures
            r.wf(),
            final(publications)@ == old(publications)@ + 1,
            r@ == RunView::historical(recovered, final(publications)@),
    {
        let mut ordinal: Option<TerminalOrdinal> = None;
        publications.recover(&mut ordinal);
        let info = recovered.info;
        let state = match info.state {
            RunState::Running => RunState::Interrupted { reason: InterruptionReason::DaemonRestart },
            ended => ended,
        };
        Run {
            id: info.id,
            spec: info.spec,
            lineage: info.lineage,
            backend: info.backend,
            capabilities: info.capabilities,
            pid: info.pid,
            state,
            output: OutputLog::from_replay(recovered.replay),
            control: None,
            mode: PersistenceMode::PersistentCapable,
            binding: PersistenceBinding::Active,
            attachments: 0,
            live_ring: false,
            ordinal,
        }
    }

    /// A Run whose child outlived an upgrade of the daemon. Its output goes on
    /// from the recovered cursor, and its place in the order of endings is
    /// given when the child exits.
    pub fn readopt(recovered: RecoveredRun, child_pid: u32) -> (r: Run)
        requires
            recovered.valid(),
        ensures
            r.wf(),
            r@ == RunView::recovered(recovered, Some(child_pid), Some(RunControl::Native), None),
    {
        let info = recovered.info;
        Run {
            id: info.id,
            spec: info.spec,
            lineage: info.lineage,
            backend: info.backend,
            capabilities: info.capabilities,
            pid: Some(child_pid),
            state: info.state,
            output: OutputLog::from_replay(recovered.replay),
            control: Some(RunControl::Native),
            mode: PersistenceMode::PersistentCapable,
            binding: PersistenceBinding::Active,
            attachments: 0,
            live_ring: false,
            ordinal: None,
        }
    }

    /// Public description of this Run.
    pub fn info(&self, cursors: OwnerCursors) -> (r: RunInfo)
        ensures
            self@.describes(r, cursors),
    {
        let applied_input_bytes = match self.control {
            Some(RunControl::Native) => Some(cursors.applied_input_bytes),
            Some(RunControl::Tmux) => None,
            None => None,
        };
        let durable_output_bytes = match self.binding {
            PersistenceBinding::CommittedPendingActivation { .. } | PersistenceBinding::Active =>
                Some(cursors.durable_output_bytes),
            _ => None,
        };
        RunInfo {
            id: self.id,
            spec: copied_spec(&self.spec),
            lineage: self.lineage,
            backend: self.backend.copied(),
            capabilities: self.capabilities,
            pid: self.pid,
            state: self.state.copied(),
            latest_output_bytes: self.output.latest_output_bytes(),
            durable_output_bytes,
            first_available_byte: self.output.first_available_byte(),
            attachments: self.attachments,
            applied_input_bytes,
        }
    }

    /// What a new reader sees first: the Run and the output after its cursor.
    pub fn attachment_snapshot(&self, after_byte: u64, cursors: OwnerCursors) -> (r:
        AttachedSnapshot)
        requires
            self.wf(),
        ensures
            self@.describes(r.run, cursors),
            self@.output.replays(after_byte, r.replay),
    {
        AttachedSnapshot { run: self.info(cursors), replay: self.output.replay(after_byte) }
    }

    /// Add a live reader. The result says whether it opens the ring of live
    /// events.
    pub fn subscribe(&mut self) -> (r: bool)
        requires
            old(self).wf(),
            old(self)@.attachments < usize::MAX,
        ensures
            final(self).wf(),
            final(self)@ == old(self)@.subscribed(),
            r == !old(self)@.live_ring,
    {
        let opened = !self.live_ring;
        self.attachments = self.attachments + 1;
        self.live_ring = true;
        opened
    }

    /// Remove a live reader. The result says whether the ring of live events
    /// is dropped with it.
    pub fn release(&mut self) -> (r: bool)
        requires
            old(self).wf(),
            old(self)@.attachments > 0,
        ensures
            final(self).wf(),
            final(self)@ == old(self)@.released(),
            r == (old(self)@.attachments == 1),
    {
        self.attachments = self.attachments - 1;
        if self.attachments == 0 {
            self.live_ring = false;
        }
        !self.live_ring
    }

    /// The event where someone reads live events.
    pub fn publish_event(&self, event: RunEvent) -> (r: Option<RunEvent>)
        requires
            self.wf(),
        ensures
            self@.tells(r, event),
    {
        if self.attachments == 0 || !self.live_ring {
            None
        } else {
            Some(event)
        }
    }

    /// Retain output. Empty output changes nothing. The durable record of a
    /// running Run gets it once the record is active.
    pub fn record_output(&mut self, data: Vec<u8>) -> (r: RunEffects)
        requires
            old(self).wf(),
            old(self)@.output.has_cursor_space(data@),
        ensures
            final(self).wf(),
            data@.len() == 0 ==> final(self)@ == old(self)@ && r.is_nothing(),
            data@.len() > 0 ==> {
                &&& final(self)@ == (RunView {
                    output: old(self)@.output.pushed(data@),
                    ..old(self)@
                })
                &&& (old(self)@.binding is Active && old(self)@.state is Running) == r.durable is Some
                &&& (r.durable matches Some(work) ==> work.appends(
                    final(self)@.output,
                    old(self)@.output.latest,
                ))
                &&& (old(self)@.attachments > 0) == r.event is Some
                &&& (r.event matches Some(event) ==> (event matches RunEvent::Output { chunk }
                    && chunk@ == old(self)@.output.next_chunk(data@)))
            },
    {
        if data.len() == 0 {
            return RunEffects { durable: None, event: None };
        }
        let chunk = self.output.push(data);
        proof {
            self.output.lemma_wf_is_valid();
        }
        let active = match (self.mode, &self.binding, &self.state) {
            (PersistenceMode::PersistentCapable, PersistenceBinding::Active, RunState::Running) =>
                true,
            _ => false,
        };
        let durable = if active {
            Some(DurableWork::Append { replay: self.output.replay(chunk.start_byte) })
        } else {
            None
        };
        let event = self.publish_event(RunEvent::Output { chunk });
        RunEffects { durable, event }
    }

    /// Note that the source of this Run's output lost some of it.
    pub fn mark_output_source_gap(&mut self) -> (r: u64)
        requires
            old(self).wf(),
        ensures
            final(self).wf(),
            r == old(self)@.output.latest,
            final(self)@ == (RunView {
                output: LogView { gap: Some(old(self)@.output.latest), ..old(self)@.output },
                ..old(self)@
            }),
    {
        let latest: u64 = self.output.mark_source_gap();
        proof {
            self.output.lemma_wf_is_valid();
        }
        latest
    }

    fn publish_terminal_state(
        &mut self,
        terminal: RunState,
        publications: &mut TerminalPublicationOwner,
    )
        requires
            old(self)@.ordinal is None,
            old(self).wf(),
            !(old(self)@.binding is Pending),
            !(old(self)@.binding is CommittedPendingActivation),
            !(terminal is Running),
            old(publications)@ < u64::MAX,
        ensures
            final(self).wf(),
            final(publications)@ == old(publications)@ + 1,
            final(self)@ == old(self)@.ended(terminal, final(publications)@),
    {
        publications.publish(&mut self.ordinal, &mut self.state, terminal);
    }

    /// Record that the child of this Run ended. Where the durable record is
    /// not active yet, the end is held and stays invisible; otherwise the
    /// record is finalized first and the end becomes visible then.
    pub fn publish_terminal(
        &mut self,
        terminal: RunState,
        publications: &mut TerminalPublicationOwner,
    ) -> (r: RunEffects)
        requires
            old(self).wf(),
            old(self)@.can_end(),
            old(self)@.control is Some,
            !(terminal is Running),
            old(publications)@ < u64::MAX,
        ensures
            final(self).wf(),
            final(self)@ == old(self)@.terminated(terminal, (old(publications)@ + 1) as u64),
            if old(self)@.binding is Disabled || old(self)@.binding is Active {
                &&& final(publications)@ == old(publications)@ + 1
                &&& old(self)@.tells(r.event, RunEvent::Exited { state: terminal })
                &&& if old(self)@.binding is Active {
                    r.durable matches Some(work) && work.finalizes(
                        old(self)@.output,
                        old(self)@.pid,
                        terminal,
                    )
                } else {
                    r.durable is None
                }
            } else {
                final(publications)@ == old(publications)@ && r.is_nothing()
            },
    {
        match self.binding {
            PersistenceBinding::Disabled => {
                let state = terminal.copied();
                self.publish_terminal_state(terminal, publications);
                let event = self.publish_event(RunEvent::Exited { state });
                RunEffects { durable: None, event }
            },
            PersistenceBinding::Pending { .. } => {
                self.binding = PersistenceBinding::Pending { terminal: Some(terminal) };
                RunEffects { durable: None, event: None }
            },
            PersistenceBinding::CommittedPendingActivation { .. } => {
                self.binding =
                    PersistenceBinding::CommittedPendingActivation { terminal: Some(terminal) };
                RunEffects { durable: None, event: None }
            },
            PersistenceBinding::Active => self.finalize(terminal, publications),
        }
    }

    fn finalize(&mut self, terminal: RunState, publications: &mut TerminalPublicationOwner) -> (r:
        RunEffects)
        requires
            old(self).wf(),
            old(self)@.ordinal is None,
            old(self)@.binding is Active,
            old(self)@.pid is Some,
            !(terminal is Running),
            old(publications)@ < u64::MAX,
        ensures
            final(self).wf(),
            final(publications)@ == old(publications)@ + 1,
            final(self)@ == old(self)@.ended(terminal, final(publications)@),
            r.durable matches Some(work) && work.finalizes(
                old(self)@.output,
                old(self)@.pid,
                terminal,
            ),
            old(self)@.tells(r.event, RunEvent::Exited { state: terminal }),
    {
        let replay = self.output.replay(0);
        let durable = match self.pid {
            Some(pid) => Some(DurableWork::Finalize { pid, replay, state: terminal.copied() }),
            None => None,
        };
        let state = terminal.copied();
        self.publish_terminal_state(terminal, publications);
        let event = self.publish_event(RunEvent::Exited { state });
        RunEffects { durable, event }
    }

    /// Record that the backend of this Run was lost.
    pub fn publish_interrupted(
        &mut self,
        reason: InterruptionReason,
        publications: &mut TerminalPublicationOwner,
    ) -> (r: Option<RunEvent>)
        requires
            old(self).wf(),
            old(self)@.ordinal is None,
            old(self)@.binding is Disabled,
            old(publications)@ < u64::MAX,
        ensures
            final(self).wf(),
            final(publications)@ == old(publications)@ + 1,
            final(self)@ == old(self)@.ended(
                RunState::Interrupted { reason },
                final(publications)@,
            ),
            old(self)@.tells(r, RunEvent::Interrupted { reason }),
    {
        self.publish_terminal_state(RunState::Interrupted { reason }, publications);
        self.publish_event(RunEvent::Interrupted { reason })
    }

    /// Bind the committed record. Nothing is written to it yet.
    pub fn install_committed_persistence(&mut self)
        requires
            old(self).wf(),
            old(self)@.binding is Pending,
        ensures
            final(self).wf(),
            final(self)@ == old(self)@.committed(),
    {
        let terminal = match &self.binding {
            PersistenceBinding::Pending { terminal: Some(held) } => Some(held.copied()),
            _ => None,
        };
        self.binding = PersistenceBinding::CommittedPendingActivation { terminal };
    }

    /// Activate the record once the Run is public. An end that came before
    /// becomes visible now, with the record finalized; otherwise the record
    /// gets all output so far.
    pub fn activate_persistence_after_publication(
        &mut self,
        publications: &mut TerminalPublicationOwner,
    ) -> (r: RunEffects)
        requires
            old(self).wf(),
            old(self)@.binding is CommittedPendingActivation,
            old(self)@.control is Some,
            old(publications)@ < u64::MAX,
        ensures
            final(self).wf(),
            final(self)@ == old(self)@.activated((old(publications)@ + 1) as u64),
            match old(self)@.binding.held() {
                Some(terminal) => {
                    &&& final(publications)@ == old(publications)@ + 1
                    &&& r.durable matches Some(work) && work.finalizes(
                        old(self)@.output,
                        old(self)@.pid,
                        terminal,
                    )
                    &&& old(self)@.tells(r.event, RunEvent::Exited { state: terminal })
                },
                None => {
                    &&& final(publications)@ == old(publications)@
                    &&& r.durable matches Some(work) && work.appends(old(self)@.output, 0)
                    &&& r.event is None
                },
            },
    {
        let terminal = match &self.binding {
            PersistenceBinding::CommittedPendingActivation { terminal: Some(held) } => Some(
                held.copied(),
            ),
            _ => None,
        };
        self.binding = PersistenceBinding::Active;
        match terminal {
            Some(terminal) => self.finalize(terminal, publications),
            None => {
                let replay = self.output.replay(0);
                RunEffects { durable: Some(DurableWork::Append { replay }), event: None }
            },
        }
    }

    /// Whether native control commands can be given.
    pub fn native_control(&self) -> (r: Result<(), ProtocolError>)
        ensures
            match self@.control_refusal() {
                None => r == Ok::<(), ProtocolError>(()),
                Some(refusal) => r matches Err(error) && error.says(refusal.0, refusal.1),
            },
    {
        let text = self.id.to_text();
        match self.control {
            Some(RunControl::Native) => Ok(()),
            Some(RunControl::Tmux) => Err(
                ProtocolError {
                    code: ErrorCode::UnsupportedCapability,
                    message: joined3(
                        "Run ",
                        text.as_str(),
                        " backend does not support native control",
                    ),
                },
            ),
            None => Err(
                ProtocolError {
                    code: ErrorCode::InvalidRunState,
                    message: joined("cannot control historical Run ", text.as_str()),
                },
            ),
        }
    }

    /// Begin an Input, a signal or a Stop: refused without effect where the
    /// Run has no native control.
    pub fn begin_control(&self) -> (r: Result<(), ControlFailure>)
        ensures
            match self@.control_refusal() {
                None => r == Ok::<(), ControlFailure>(()),
                Some(refusal) => r matches Err(failure) && failure.disposition
                    == CommandDisposition::NotApplied && failure.error.says(
                    refusal.0,
                    refusal.1,
                ),
            },
    {
        match self.native_control() {
            Ok(done) => Ok(done),
            Err(error) => Err(control_failure_not_applied(error)),
        }
    }

    /// Begin a Resize: a bad size is refused whatever controls the Run.
    pub fn begin_resize(&self, size: TerminalSize) -> (r: Result<(), ControlFailure>)
        ensures
            match size_defect(size) {
                Some(defect) => r matches Err(failure) && failure.disposition
                    == CommandDisposition::NotApplied && failure.error.says(
                    ErrorCode::InvalidRequest,
                    defect,
                ),
                None => match self@.control_refusal() {
                    None => r == Ok::<(), ControlFailure>(()),
                    Some(refusal) => r matches Err(failure) && failure.disposition
                        == CommandDisposition::NotApplied && failure.error.says(
                        refusal.0,
                        refusal.1,
                    ),
                },
            },
    {
        match validate_terminal_size(size) {
            Err(defect) => Err(
                control_failure_not_applied(
                    ProtocolError { code: ErrorCode::InvalidRequest, message: defect },
                ),
            ),
            Ok(_) => self.begin_control(),
        }
    }

    /// Whether this Run can outlive an upgrade of the daemon, with what its
    /// native control says of that.
    pub fn has_continuation_authority(&self, control_continues: bool) -> (r: bool)
        ensures
            r == (self@.control == Some(RunControl::Native) && control_continues),
    {
        match self.control {
            Some(RunControl::Native) => control_continues,
            _ => false,
        }
    }

    /// The place of this Run among Runs that may be collected: it ended,
    /// nobody reads it, and its backend is quiescent. A historical Run has no
    /// backend left.
    pub fn collection_ordinal(&self, backend_quiescent: bool) -> (r: Option<TerminalOrdinal>)
        requires
            self.wf(),
        ensures
            r == self@.collectable(backend_quiescent),
    {
        let running = match self.state {
            RunState::Running => true,
            _ => false,
        };
        if running || self.attachments != 0 {
            return None;
        }
        let quiescent = match self.control {
            Some(_) => backend_quiescent,
            None => match self.mode {
                PersistenceMode::PersistentCapable => true,
                PersistenceMode::MemoryOnly => false,
            },
        };
        if quiescent {
            self.ordinal
        } else {
            None
        }
    }

    /// Give up what the backend still holds, with what the backend says of its
    /// own quiescence. `Some` means that native descriptors were given up.
    pub fn detach_collection_descriptors(&self, backend: Result<(), String>) -> (r: Result<
        bool,
        String,
    >)
        ensures
            match self@.control {
                Some(control) => match backend {
                    Ok(_) => r == Ok::<bool, String>(control == RunControl::Native),
                    Err(reason) => r == Err::<bool, String>(reason),
                },
                None => if self@.mode == PersistenceMode::PersistentCapable {
                    r == Ok::<bool, String>(false)
                } else {
                    r matches Err(reason) && reason@ == "Run "@ + self@.id.text()
                        + " has no incarnation owner to collect"@
                },
            },
    {
        match self.control {
            Some(RunControl::Native) => match backend {
                Ok(_) => Ok(true),
                Err(reason) => Err(reason),
            },
            Some(RunControl::Tmux) => match backend {
                Ok(_) => Ok(false),
                Err(reason) => Err(reason),
            },
            None => match self.mode {
                PersistenceMode::PersistentCapable => Ok(false),
                PersistenceMode::MemoryOnly => {
                    let text = self.id.to_text();
                    Err(joined3("Run ", text.as_str(), " has no incarnation owner to collect"))
                },
            },
        }
    }

    /// Whether everything that an unpublished native Run started is gone: its
    /// control says so, and nothing else refers to it.
    pub fn unpublished_cleanup_result(&self, control: Result<(), String>, owners: u64) -> (r:
        Result<(), String>)
        ensures
            match self@.control_refusal() {
                Some(refusal) => r matches Err(message) && message@ == refusal.1,
                None => match control {
                    Err(message) => r == Err::<(), String>(message),
                    Ok(_) => if owners == 1 {
                        r == Ok::<(), String>(())
                    } else {
                        r matches Err(message) && message@ == "unpublished Run "@
                            + self@.id.text() + " retains "@ + decimal(owners as nat)
                            + " reader, waiter, or external owners"@
                    },
                },
            },
    {
        match self.native_control() {
            Err(error) => Err(error.message),
            Ok(_) => match control {
                Err(message) => Err(message),
                Ok(done) => {
                    if owners == 1 {
                        return Ok(done);
                    }
                    let text = self.id.to_text();
                    let count = decimal_text(owners);
                    let subject = joined3("unpublished Run ", text.as_str(), " retains ");
                    Err(
                        joined3(
                            subject.as_str(),
                            count.as_str(),
                            " reader, waiter, or external owners",
                        ),
                    )
                },
            },
        }
    }

    /// Whether everything that an unpublished import started is gone, with
    /// what its tmux control says.
    pub fn tmux_unpublished_cleanup_result(&self, control: Result<(), String>) -> (r: Result<
        (),
        String,
    >)
        ensures
            match self@.control {
                Some(RunControl::Tmux) => r == control,
                Some(RunControl::Native) => r matches Err(message) && message@
                    == "unpublished tmux cleanup references a native Run"@,
                None => r matches Err(message) && message@
                    == "unpublished tmux cleanup has no incarnation owner"@,
            },
    {
        match self.control {
            Some(RunControl::Tmux) => control,
            Some(RunControl::Native) => Err(
                owned("unpublished tmux cleanup references a native Run"),
            ),
            None => Err(owned("unpublished tmux cleanup has no incarnation owner")),
        }
    }

    /// The identity of this Run.
    pub fn id(&self) -> (r: RunId)
        ensures
            r == self@.id,
    {
        self.id
    }

    /// What this Run accepts.
    pub fn capabilities(&self) -> (r: RunCapabilities)
        ensures
            r == self@.capabilities,
    {
        self.capabilities
    }

    /// A copy of the specification of this Run.
    pub fn spec(&self) -> (r: Option<RunSpec>)
        ensures
            spec_view(r) == self@.spec,
    {
        copied_spec(&self.spec)
    }

    /// What the registry has to know of this Run, with what its owners say:
    /// whether someone else holds it, whether its backend is quiescent, and
    /// why nobody waits for its child any more.
    pub fn facts(&self, shared: bool, backend_quiescent: bool, wait_failure: Option<String>) -> (r:
        RunFacts)
        requires
            self.wf(),
        ensures
            r.id == self@.id,
            spec_view(r.spec) == self@.spec,
            r.lineage == self@.lineage,
            r.running == (self@.state is Running),
            r.shared == shared,
            r.ordinal == self@.collectable(backend_quiescent),
            r.tmux_controlled == (self@.control == Some(RunControl::Tmux)),
            r.wait_failure == (if self@.control == Some(RunControl::Native) {
                wait_failure
            } else {
                None
            }),
    {
        let running = match self.state {
            RunState::Running => true,
            _ => false,
        };
        let (tmux_controlled, wait_failure) = match self.control {
            Some(RunControl::Native) => (false, wait_failure),
            Some(RunControl::Tmux) => (true, None),
            None => (false, None),
        };
        RunFacts {
            id: self.id,
            spec: copied_spec(&self.spec),
            lineage: self.lineage,
            running,
            shared,
            ordinal: self.collection_ordinal(backend_quiescent),
            tmux_controlled,
            wait_failure,
        }
    }

    /// Handle what the control client of a tmux Run printed; the events are
    /// for live readers.
    pub fn observe_tmux(
        &mut self,
        observation: &mut TmuxObservation,
        seen: StreamEvent,
        probe_command: String,
    ) -> (r: ItemStep)
        requires
            old(self).wf(),
            old(observation).wf(),
            seen matches StreamEvent::Item { item: ControlItem::Output { data, .. }, .. }
                ==> old(self)@.output.has_cursor_space(data@),
        ensures
            final(self).wf(),
            final(observation).wf(),
            final(self)@ == (RunView { output: final(self)@.output, ..old(self)@ }),
            old(observation)@.reads(
                seen,
                probe_command@,
                old(self)@.output,
                final(observation)@,
                final(self)@.output,
                r.events@,
                r.outcome,
            ),
    {
        let step = observation.read_tmux_output(seen, probe_command, &mut self.output);
        proof {
            self.output.lemma_wf_is_valid();
        }
        step
    }
}

/// When the child of a Run ends, before the record is committed, between the
/// commit and the publication, or after both, makes no difference in the end:
/// the end is held until the Run is public and is never lost.
pub proof fn law_an_early_end_is_held_and_never_lost(
    run: RunView,
    terminal: RunState,
    number: u64,
)
    requires
        run.valid(),
        run.binding is Pending,
        run.can_end(),
    ensures
        run.terminated(terminal, number).state is Running,
        run.terminated(terminal, number).committed().state is Running,
        run.committed().terminated(terminal, number).state is Running,
        run.terminated(terminal, number).committed().activated(number)
            == run.committed().activated(number).terminated(terminal, number),
        run.committed().terminated(terminal, number).activated(number)
            == run.committed().activated(number).terminated(terminal, number),
        run.committed().activated(number).terminated(terminal, number).state == terminal,
{
}

/// What happens to a Run keeps its invariant, and once it ended it cannot end
/// again.
pub proof fn law_a_run_ends_once(run: RunView, terminal: RunState, number: u64)
    requires
        run.valid(),
        run.can_end(),
        !(terminal is Running),
    ensures
        run.terminated(terminal, number).valid(),
        !run.terminated(terminal, number).can_end(),
        run.binding is Pending ==> run.committed().valid(),
        run.binding is CommittedPendingActivation ==> run.activated(number).valid(),
        run.subscribed().valid(),
        run.attachments > 0 ==> run.released().valid(),
{
}

/// A reader that comes and goes leaves no trace: the ring of live events lives
/// exactly as long as the readers.
pub proof fn law_a_reader_that_leaves_leaves_no_trace(run: RunView)
    requires
        run.valid(),
    ensures
        run.subscribed().released() == run,
        run.subscribed().live_ring,
        run.attachments == 0 ==> !run.subscribed().released().live_ring,
{
}

} // verus!

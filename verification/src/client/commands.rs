//! Commands of one live attachment: numbering, bounds and correlation.

use vstd::prelude::*;

use crate::client::error::{
    AttachmentUnavailableReason, AttachmentUnknownReason, ClientError,
};
use crate::client::receipt::{
    decode_input_receipt, decode_resize_receipt, decode_stop_receipt, failure_is_consistent,
    validate_control_failure, InputReceipt, ResizeReceipt, StopReceipt,
};
use crate::protocol::{
    AttachmentCommandId, ControlFailure, ControlOutcome, ControlReceipt,
};

verus! {

/// Commands that may wait for their result.
pub const MAX_PENDING_COMMANDS: usize = 64;

/// Input commands that may wait for their result.
pub const MAX_PENDING_INPUT_COMMANDS: usize = 32;

/// Input bytes that may wait for their result.
pub const MAX_PENDING_INPUT_BYTES: usize = 1048576;

/// What a waiting command asked for.
#[derive(Debug, Clone, Copy, PartialEq, Eq, Structural)]
pub enum PendingKind {
    Input { expected_bytes: usize },
    Resize,
    Stop,
}

/// A receipt that matches its command.
#[derive(Debug, Clone, Copy, PartialEq, Eq, Structural)]
pub enum ValidatedReceipt {
    Input(InputReceipt),
    Resize(ResizeReceipt),
    Stop(StopReceipt),
}

impl PendingKind {
    /// Input bytes that the command carries.
    pub open spec fn bytes(&self) -> int {
        match self {
            PendingKind::Input { expected_bytes } => *expected_bytes as int,
            _ => 0,
        }
    }

    /// Input bytes that the command carries.
    pub fn input_bytes(&self) -> (r: usize)
        ensures
            r == self.bytes(),
    {
        match self {
            PendingKind::Input { expected_bytes } => *expected_bytes,
            _ => 0,
        }
    }

    /// The receipt, where it proves that this command was applied.
    pub open spec fn proof_of(&self, receipt: ControlReceipt) -> Option<ValidatedReceipt> {
        match (*self, receipt) {
            (PendingKind::Input { expected_bytes }, ControlReceipt::Input { written_bytes }) =>
                if written_bytes as int == expected_bytes as int {
                    Some(ValidatedReceipt::Input(InputReceipt { written_bytes }))
                } else {
                    None
                },
            (PendingKind::Resize, ControlReceipt::Resize { applied_size }) => if applied_size.cols
                != 0 && applied_size.rows != 0 {
                Some(ValidatedReceipt::Resize(ResizeReceipt { applied_size }))
            } else {
                None
            },
            (PendingKind::Stop, ControlReceipt::Stop { disposition }) => Some(
                ValidatedReceipt::Stop(StopReceipt { disposition }),
            ),
            _ => None,
        }
    }

    /// The detail of a receipt that does not match this command.
    pub open spec fn mismatch(&self) -> Seq<char> {
        match self {
            PendingKind::Input { .. } => "attachment input receipt does not match its command"@,
            PendingKind::Resize => "attachment resize receipt does not match its command"@,
            PendingKind::Stop => "attachment stop receipt does not match its command"@,
        }
    }

    /// Check a receipt against this command.
    pub fn validate(&self, receipt: &ControlReceipt) -> (r: Result<
        ValidatedReceipt,
        &'static str,
    >)
        ensures
            match self.proof_of(*receipt) {
                Some(validated) => r == Ok::<ValidatedReceipt, &'static str>(validated),
                None => r matches Err(message) && message@ == self.mismatch(),
            },
    {
        match self {
            PendingKind::Input { expected_bytes } => match decode_input_receipt(
                receipt,
                *expected_bytes,
            ) {
                Ok(receipt) => Ok(ValidatedReceipt::Input(receipt)),
                Err(_) => Err("attachment input receipt does not match its command"),
            },
            PendingKind::Resize => match decode_resize_receipt(receipt) {
                Ok(receipt) => Ok(ValidatedReceipt::Resize(receipt)),
                Err(_) => Err("attachment resize receipt does not match its command"),
            },
            PendingKind::Stop => match decode_stop_receipt(receipt) {
                Ok(receipt) => Ok(ValidatedReceipt::Stop(receipt)),
                Err(_) => Err("attachment stop receipt does not match its command"),
            },
        }
    }
}

/// How one waiting command ended.
#[derive(Debug, PartialEq, Eq)]
pub enum PendingResolution {
    Accepted(ValidatedReceipt),
    Rejected(ControlFailure),
    Unknown(AttachmentUnknownReason),
}

/// One command that waits for its result.
#[derive(Debug, Clone, Copy, PartialEq, Eq, Structural)]
pub struct PendingCommand {
    pub id: AttachmentCommandId,
    pub kind: PendingKind,
}

/// How an attachment ended.
#[derive(Debug, Clone, Copy, PartialEq, Eq, Structural)]
pub enum AttachmentEnd {
    Detached,
    Terminated,
}

/// How many of the commands are input.
pub open spec fn input_count(pending: Seq<PendingCommand>) -> int
    decreases pending.len(),
{
    if pending.len() == 0 {
        0
    } else {
        input_count(pending.drop_last()) + (if pending.last().kind is Input {
            1int
        } else {
            0
        })
    }
}

/// How many input bytes the commands carry.
pub open spec fn input_total(pending: Seq<PendingCommand>) -> int
    decreases pending.len(),
{
    if pending.len() == 0 {
        0
    } else {
        input_total(pending.drop_last()) + pending.last().kind.bytes()
    }
}

/// State of the commands of one attachment.
pub struct CommandsView {
    pub next_command_id: u32,
    pub fence: Option<AttachmentUnavailableReason>,
    pub detaching: bool,
    pub end: Option<AttachmentEnd>,
    pub pending: Seq<PendingCommand>,
}

/// Why a command is not admitted.
pub enum AdmissionRefusal {
    Unavailable(AttachmentUnavailableReason),
    Backpressure(Seq<char>),
}

impl CommandsView {
    /// What every state keeps: waiting commands have distinct, increasing
    /// numbers below the next one, and stay within the three bounds. The last
    /// number of all is only out while the fence is up. An ended attachment
    /// has no waiting commands.
    pub open spec fn valid(&self) -> bool {
        &&& self.next_command_id >= 1
        &&& forall|i: int, j: int|
            0 <= i < j < self.pending.len() ==> (#[trigger] self.pending[i]).id.number < (
            #[trigger] self.pending[j]).id.number
        &&& forall|i: int|
            0 <= i < self.pending.len() ==> {
                &&& 1 <= (#[trigger] self.pending[i]).id.number <= self.next_command_id
                &&& self.pending[i].id.number == self.next_command_id ==> self.next_command_id
                    == u32::MAX && self.fence is Some
            }
        &&& self.pending.len() <= MAX_PENDING_COMMANDS
        &&& input_count(self.pending) <= MAX_PENDING_INPUT_COMMANDS
        &&& input_total(self.pending) <= MAX_PENDING_INPUT_BYTES
        &&& self.end is Some ==> self.pending.len() == 0 && self.fence
            == Some(AttachmentUnavailableReason::Closed)
        &&& self.detaching ==> self.fence == Some(AttachmentUnavailableReason::Detaching)
            || self.fence == Some(AttachmentUnavailableReason::Closed)
    }

    /// Where a command waits.
    pub open spec fn place(&self, id: AttachmentCommandId) -> Option<int> {
        if exists|i: int| 0 <= i < self.pending.len() && (#[trigger] self.pending[i]).id == id {
            Some(choose|i: int| 0 <= i < self.pending.len() && (#[trigger] self.pending[i]).id == id)
        } else {
            None
        }
    }

    /// Whether a command waits.
    pub open spec fn waits(&self, id: AttachmentCommandId) -> bool {
        self.place(id) is Some
    }

    /// Why a command is not admitted, where it is not.
    pub open spec fn refusal(&self, kind: PendingKind) -> Option<AdmissionRefusal> {
        if self.end is Some {
            Some(AdmissionRefusal::Unavailable(AttachmentUnavailableReason::Closed))
        } else if let Some(reason) = self.fence {
            Some(AdmissionRefusal::Unavailable(reason))
        } else if self.pending.len() == MAX_PENDING_COMMANDS {
            Some(AdmissionRefusal::Backpressure("64 unresolved commands"@))
        } else if kind is Input && input_count(self.pending) == MAX_PENDING_INPUT_COMMANDS {
            Some(AdmissionRefusal::Backpressure("32 unresolved input commands"@))
        } else if input_total(self.pending) + kind.bytes() > MAX_PENDING_INPUT_BYTES {
            Some(AdmissionRefusal::Backpressure("1 MiB unresolved input data"@))
        } else {
            None
        }
    }

    /// The number that the next admitted command gets.
    pub open spec fn next_id(&self) -> AttachmentCommandId {
        AttachmentCommandId { number: self.next_command_id }
    }

    /// The state after a command was admitted.
    pub open spec fn registered(&self, kind: PendingKind) -> CommandsView {
        let pending = self.pending.push(PendingCommand { id: self.next_id(), kind });
        if self.next_command_id == u32::MAX {
            CommandsView {
                fence: Some(AttachmentUnavailableReason::CommandIdsExhausted),
                pending,
                ..*self
            }
        } else {
            CommandsView {
                next_command_id: (self.next_command_id + 1) as u32,
                pending,
                ..*self
            }
        }
    }

    /// The state after the command at `place` no longer waits.
    pub open spec fn without(&self, place: int) -> CommandsView {
        CommandsView { pending: self.pending.remove(place), ..*self }
    }

    /// Whether a waiting command is the one that was admitted last.
    pub open spec fn is_newest(&self, id: AttachmentCommandId) -> bool {
        &&& self.pending.len() > 0 && self.pending.last().id == id
        &&& id.number == u32::MAX || self.next_command_id == id.number + 1
    }

    /// The state after a command that was never sent is taken back.
    pub open spec fn cancelled(&self, id: AttachmentCommandId) -> CommandsView {
        match self.place(id) {
            None => *self,
            Some(place) => if id.number == u32::MAX {
                CommandsView {
                    fence: if self.fence == Some(
                        AttachmentUnavailableReason::CommandIdsExhausted,
                    ) {
                        None
                    } else {
                        self.fence
                    },
                    ..self.without(place)
                }
            } else {
                CommandsView { next_command_id: id.number, ..self.without(place) }
            },
        }
    }

    /// What an outcome proves of a waiting command, or why it proves nothing.
    pub open spec fn resolution(&self, id: AttachmentCommandId, outcome: ControlOutcome) -> Result<
        PendingResolution,
        Seq<char>,
    > {
        match self.place(id) {
            None => Err("command result names an unknown or completed ID"@),
            Some(place) => match outcome {
                ControlOutcome::Accepted { receipt } => match self.pending[place].kind.proof_of(
                    receipt,
                ) {
                    Some(validated) => Ok(PendingResolution::Accepted(validated)),
                    None => Err(self.pending[place].kind.mismatch()),
                },
                ControlOutcome::Rejected { failure } => if failure_is_consistent(failure) {
                    Ok(PendingResolution::Rejected(failure))
                } else {
                    Err("control_backpressure must have not_applied disposition"@)
                },
            },
        }
    }

    /// The state after termination.
    pub open spec fn terminated(&self) -> CommandsView {
        CommandsView {
            end: Some(AttachmentEnd::Terminated),
            fence: Some(AttachmentUnavailableReason::Closed),
            pending: seq![],
            ..*self
        }
    }
}

proof fn lemma_totals_nonnegative(pending: Seq<PendingCommand>)
    ensures
        0 <= input_count(pending) <= pending.len(),
        0 <= input_total(pending),
    decreases pending.len(),
{
    if pending.len() > 0 {
        lemma_totals_nonnegative(pending.drop_last());
    }
}

proof fn lemma_totals_push(pending: Seq<PendingCommand>, command: PendingCommand)
    ensures
        input_count(pending.push(command)) == input_count(pending) + (if command.kind is Input {
            1int
        } else {
            0
        }),
        input_total(pending.push(command)) == input_total(pending) + command.kind.bytes(),
{
    assert(pending.push(command).drop_last() =~= pending);
}

proof fn lemma_totals_remove(pending: Seq<PendingCommand>, place: int)
    requires
        0 <= place < pending.len(),
    ensures
        input_count(pending.remove(place)) == input_count(pending) - (
        if pending[place].kind is Input {
            1int
        } else {
            0
        }),
        input_total(pending.remove(place)) == input_total(pending) - pending[place].kind.bytes(),
        input_count(pending) >= (if pending[place].kind is Input {
            1int
        } else {
            0
        }),
        input_total(pending) >= pending[place].kind.bytes(),
    decreases pending.len(),
{
    let removed = pending.remove(place);
    if place == pending.len() - 1 {
        assert(removed =~= pending.drop_last());
    } else {
        lemma_totals_remove(pending.drop_last(), place);
        assert(removed.drop_last() =~= pending.drop_last().remove(place));
        assert(removed.last() == pending.last());
    }
    lemma_totals_nonnegative(removed);
}

proof fn lemma_place(commands: CommandsView, place: int)
    requires
        commands.valid(),
        0 <= place < commands.pending.len(),
    ensures
        commands.place(commands.pending[place].id) == Some(place),
{
    let id = commands.pending[place].id;
    let chosen = choose|i: int|
        0 <= i < commands.pending.len() && (#[trigger] commands.pending[i]).id == id;
    assert(commands.pending[place].id == id);
    if chosen < place {
        assert(commands.pending[chosen].id.number < commands.pending[place].id.number);
    } else if place < chosen {
        assert(commands.pending[place].id.number < commands.pending[chosen].id.number);
    }
}

/// Admission keeps the numbering and the bounds of the attachment.
pub proof fn law_registration_keeps_commands_valid(commands: CommandsView, kind: PendingKind)
    requires
        commands.valid(),
        commands.refusal(kind) is None,
    ensures
        commands.registered(kind).valid(),
        !commands.waits(commands.next_id()),
        commands.registered(kind).waits(commands.next_id()),
{
    let command = PendingCommand { id: commands.next_id(), kind };
    lemma_totals_push(commands.pending, command);
    lemma_totals_nonnegative(commands.pending);
    let after = commands.registered(kind);
    assert(after.pending[commands.pending.len() as int].id == commands.next_id());
    assert forall|i: int| 0 <= i < commands.pending.len() implies (
    #[trigger] commands.pending[i]).id.number < commands.next_command_id by {}
}

/// A command that was admitted and never sent leaves no trace: its number is
/// the number of the next command.
pub proof fn law_unsent_command_is_taken_back(commands: CommandsView, kind: PendingKind)
    requires
        commands.valid(),
        commands.refusal(kind) is None,
    ensures
        commands.registered(kind).is_newest(commands.next_id()),
        commands.registered(kind).cancelled(commands.next_id()) == commands,
{
    law_registration_keeps_commands_valid(commands, kind);
    let after = commands.registered(kind);
    let place = commands.pending.len() as int;
    lemma_place(after, place);
    assert(after.pending.remove(place) =~= commands.pending);
    assert(commands.pending.push(after.pending[place]).remove(place) =~= commands.pending);
}

/// Numbers are handed out in increasing order: whatever was admitted before
/// has a smaller number.
pub proof fn law_command_ids_increase(commands: CommandsView, kind: PendingKind)
    requires
        commands.valid(),
        commands.refusal(kind) is None,
    ensures
        forall|i: int|
            0 <= i < commands.pending.len() ==> (#[trigger] commands.pending[i]).id.number
                < commands.next_id().number,
        commands.registered(kind).next_command_id > commands.next_command_id
            || commands.registered(kind).fence is Some,
{
}

/// Taking a waiting command away keeps the state valid.
proof fn lemma_without_keeps_valid(commands: CommandsView, place: int)
    requires
        commands.valid(),
        0 <= place < commands.pending.len(),
    ensures
        commands.without(place).valid(),
{
    lemma_totals_remove(commands.pending, place);
    lemma_totals_nonnegative(commands.pending.remove(place));
    let after = commands.without(place);
    assert forall|i: int, j: int| 0 <= i < j < after.pending.len() implies (
    #[trigger] after.pending[i]).id.number < (#[trigger] after.pending[j]).id.number by {
        let a = if i < place {
            i
        } else {
            i + 1
        };
        let b = if j < place {
            j
        } else {
            j + 1
        };
        assert(after.pending[i] == commands.pending[a]);
        assert(after.pending[j] == commands.pending[b]);
    }
    assert forall|i: int| 0 <= i < after.pending.len() implies {
        &&& 1 <= (#[trigger] after.pending[i]).id.number <= after.next_command_id
        &&& after.pending[i].id.number == after.next_command_id ==> after.next_command_id
            == u32::MAX && after.fence is Some
    } by {
        let a = if i < place {
            i
        } else {
            i + 1
        };
        assert(after.pending[i] == commands.pending[a]);
    }
}

/// Commands of one attachment.
pub struct AttachmentState {
    next_command_id: u32,
    fence: Option<AttachmentUnavailableReason>,
    detaching: bool,
    end: Option<AttachmentEnd>,
    pending: Vec<PendingCommand>,
    pending_inputs: usize,
    pending_input_bytes: usize,
}

impl AttachmentState {
    /// The state of the commands.
    pub closed spec fn view(&self) -> CommandsView {
        CommandsView {
            next_command_id: self.next_command_id,
            fence: self.fence,
            detaching: self.detaching,
            end: self.end,
            pending: self.pending@,
        }
    }

    /// Whether the numbering, the bounds and the running counts hold.
    pub closed spec fn wf(&self) -> bool {
        &&& self@.valid()
        &&& self.pending_inputs == input_count(self.pending@)
        &&& self.pending_input_bytes == input_total(self.pending@)
    }

    /// What a well-formed state keeps.
    pub proof fn lemma_wf_is_valid(&self)
        requires
            self.wf(),
        ensures
            self@.valid(),
    {
    }

    /// An attachment that has sent nothing.
    pub fn new() -> (r: AttachmentState)
        ensures
            r.wf(),
            r@ == (CommandsView {
                next_command_id: 1,
                fence: None,
                detaching: false,
                end: None,
                pending: seq![],
            }),
    {
        let r = AttachmentState {
            next_command_id: 1,
            fence: None,
            detaching: false,
            end: None,
            pending: Vec::new(),
            pending_inputs: 0,
            pending_input_bytes: 0,
        };
        assert(r.pending@ =~= seq![]);
        r
    }

    /// Admit one command and give it its number, or say why not.
    pub fn register_command(&mut self, kind: PendingKind) -> (r: Result<
        AttachmentCommandId,
        ClientError,
    >)
        requires
            old(self).wf(),
        ensures
            final(self).wf(),
            match old(self)@.refusal(kind) {
                Some(AdmissionRefusal::Unavailable(reason)) => {
                    &&& r == Err::<AttachmentCommandId, ClientError>(
                        ClientError::AttachmentUnavailable { reason },
                    )
                    &&& final(self)@ == old(self)@
                },
                Some(AdmissionRefusal::Backpressure(limit)) => {
                    &&& r matches Err(ClientError::AttachmentBackpressure { limit: text })
                        && text@ == limit
                    &&& final(self)@ == old(self)@
                },
                None => {
                    &&& r == Ok::<AttachmentCommandId, ClientError>(old(self)@.next_id())
                    &&& final(self)@ == old(self)@.registered(kind)
                },
            },
    {
        let input_bytes: usize = kind.input_bytes();
        let is_input = match kind {
            PendingKind::Input { .. } => true,
            _ => false,
        };
        if self.end.is_some() {
            return Err(
                ClientError::AttachmentUnavailable { reason: AttachmentUnavailableReason::Closed },
            );
        }
        if let Some(reason) = self.fence {
            return Err(ClientError::AttachmentUnavailable { reason });
        }
        if self.pending.len() == MAX_PENDING_COMMANDS {
            return Err(ClientError::AttachmentBackpressure { limit: "64 unresolved commands" });
        }
        if is_input && self.pending_inputs == MAX_PENDING_INPUT_COMMANDS {
            return Err(
                ClientError::AttachmentBackpressure { limit: "32 unresolved input commands" },
            );
        }
        let fits = match self.pending_input_bytes.checked_add(input_bytes) {
            Some(bytes) => bytes <= MAX_PENDING_INPUT_BYTES,
            None => false,
        };
        if !fits {
            return Err(
                ClientError::AttachmentBackpressure { limit: "1 MiB unresolved input data" },
            );
        }
        proof {
            law_registration_keeps_commands_valid(self@, kind);
            lemma_totals_push(
                self.pending@,
                PendingCommand { id: self@.next_id(), kind },
            );
        }
        let command_id = AttachmentCommandId { number: self.next_command_id };
        if self.next_command_id == u32::MAX {
            self.fence = Some(AttachmentUnavailableReason::CommandIdsExhausted);
        } else {
            self.next_command_id = self.next_command_id + 1;
        }
        if is_input {
            self.pending_inputs = self.pending_inputs + 1;
        }
        self.pending_input_bytes = self.pending_input_bytes + input_bytes;
        self.pending.push(PendingCommand { id: command_id, kind });
        Ok(command_id)
    }

    fn find(&self, id: AttachmentCommandId) -> (r: Option<usize>)
        requires
            self.wf(),
        ensures
            match r {
                Some(place) => self@.place(id) == Some(place as int) && place
                    < self.pending@.len(),
                None => self@.place(id) is None,
            },
    {
        let mut i: usize = 0;
        while i < self.pending.len()
            invariant
                self.wf(),
                i <= self.pending@.len(),
                forall|k: int| 0 <= k < i ==> (#[trigger] self.pending@[k]).id != id,
            decreases self.pending@.len() - i,
        {
            if self.pending[i].id == id {
                proof {
                    lemma_place(self@, i as int);
                }
                return Some(i);
            }
            i = i + 1;
        }
        None
    }

    fn take(&mut self, place: usize) -> (r: PendingCommand)
        requires
            old(self).wf(),
            place < old(self)@.pending.len(),
        ensures
            final(self).wf(),
            r == old(self)@.pending[place as int],
            final(self)@ == old(self)@.without(place as int),
    {
        proof {
            lemma_totals_remove(self.pending@, place as int);
            lemma_without_keeps_valid(self@, place as int);
        }
        let command = self.pending.remove(place);
        self.release_pending_capacity(command.kind);
        command
    }

    fn release_pending_capacity(&mut self, kind: PendingKind)
        requires
            old(self).pending_inputs >= (if kind is Input {
                1int
            } else {
                0
            }),
            old(self).pending_input_bytes >= kind.bytes(),
        ensures
            *final(self) == (AttachmentState {
                pending_inputs: final(self).pending_inputs,
                pending_input_bytes: final(self).pending_input_bytes,
                ..*old(self)
            }),
            final(self).pending_inputs == old(self).pending_inputs - (if kind is Input {
                1int
            } else {
                0
            }),
            final(self).pending_input_bytes == old(self).pending_input_bytes - kind.bytes(),
    {
        if let PendingKind::Input { expected_bytes } = kind {
            self.pending_inputs = self.pending_inputs - 1;
            self.pending_input_bytes = self.pending_input_bytes - expected_bytes;
        }
    }

    /// Correlate one daemon outcome with its command. An outcome that proves
    /// nothing leaves the command waiting.
    pub fn resolve_command(
        &mut self,
        command_id: AttachmentCommandId,
        outcome: ControlOutcome,
    ) -> (r: Result<PendingResolution, &'static str>)
        requires
            old(self).wf(),
        ensures
            final(self).wf(),
            match old(self)@.resolution(command_id, outcome) {
                Ok(resolution) => {
                    &&& r == Ok::<PendingResolution, &'static str>(resolution)
                    &&& final(self)@ == old(self)@.without(old(self)@.place(command_id)->0)
                },
                Err(message) => {
                    &&& r matches Err(text) && text@ == message
                    &&& final(self)@ == old(self)@
                },
            },
    {
        let place: usize = match self.find(command_id) {
            Some(place) => place,
            None => {
                return Err("command result names an unknown or completed ID");
            },
        };
        let resolution = match outcome {
            ControlOutcome::Accepted { receipt } => match self.pending[place].kind.validate(
                &receipt,
            ) {
                Ok(validated) => PendingResolution::Accepted(validated),
                Err(message) => {
                    return Err(message);
                },
            },
            ControlOutcome::Rejected { failure } => match validate_control_failure(&failure) {
                Ok(()) => PendingResolution::Rejected(failure),
                Err(message) => {
                    return Err(message);
                },
            },
        };
        let _ = self.take(place);
        Ok(resolution)
    }

    /// Take back the newest command, which never reached the connection.
    pub fn cancel_unsent_command(&mut self, command_id: AttachmentCommandId)
        requires
            old(self).wf(),
            old(self)@.waits(command_id) ==> old(self)@.is_newest(command_id),
        ensures
            final(self).wf(),
            final(self)@ == old(self)@.cancelled(command_id),
    {
        let ghost before = self@;
        match self.find(command_id) {
            None => {},
            Some(place) => {
                let _ = self.take(place);
                proof {
                    lemma_place(before, before.pending.len() - 1);
                    assert forall|i: int| 0 <= i < self.pending@.len() implies 1 <= (
                    #[trigger] self.pending@[i]).id.number < command_id.number by {
                        assert(self.pending@[i] == before.pending[i]);
                        assert(before.pending[place as int].id == command_id);
                    }
                }
                if command_id.number == u32::MAX {
                    if let Some(AttachmentUnavailableReason::CommandIdsExhausted) = self.fence {
                        self.fence = None;
                    }
                } else {
                    self.next_command_id = command_id.number;
                }
            },
        }
    }

    /// Fence new commands for a clean detach.
    pub fn begin_detach(&mut self) -> (r: Result<(), ClientError>)
        requires
            old(self).wf(),
        ensures
            final(self).wf(),
            if old(self)@.end is Some {
                &&& r == Err::<(), ClientError>(
                    ClientError::AttachmentUnavailable {
                        reason: AttachmentUnavailableReason::Closed,
                    },
                )
                &&& final(self)@ == old(self)@
            } else {
                &&& r is Ok
                &&& final(self)@ == (CommandsView {
                    fence: Some(AttachmentUnavailableReason::Detaching),
                    detaching: true,
                    ..old(self)@
                })
            },
    {
        if self.end.is_some() {
            return Err(
                ClientError::AttachmentUnavailable { reason: AttachmentUnavailableReason::Closed },
            );
        }
        self.fence = Some(AttachmentUnavailableReason::Detaching);
        self.detaching = true;
        Ok(())
    }

    /// Whether a detach may be sent: `None` while results are still missing.
    pub fn drained(&self) -> (r: Option<Result<(), ClientError>>)
        requires
            self.wf(),
        ensures
            self@.pending.len() == 0 ==> (r matches Some(Ok(_))),
            self@.pending.len() > 0 ==> r is None,
    {
        if self.pending.len() == 0 {
            return Some(Ok(()));
        }
        if self.end.is_some() {
            return Some(Err(ClientError::Closed));
        }
        None
    }

    /// Whether the attachment has ended cleanly: `None` while it has not ended.
    pub fn detached(&self) -> (r: Option<Result<(), ClientError>>)
        ensures
            match self@.end {
                Some(AttachmentEnd::Detached) => r matches Some(Ok(_)),
                Some(AttachmentEnd::Terminated) => r matches Some(Err(e)) && e is Closed,
                None => r is None,
            },
    {
        match self.end {
            Some(AttachmentEnd::Detached) => Some(Ok(())),
            Some(AttachmentEnd::Terminated) => Some(Err(ClientError::Closed)),
            None => None,
        }
    }

    /// Take the daemon's acknowledgement of a detach.
    pub fn finish_detach(&mut self) -> (r: Result<(), &'static str>)
        requires
            old(self).wf(),
        ensures
            final(self).wf(),
            if !old(self)@.detaching {
                &&& r matches Err(text) && text@
                    == "daemon acknowledged a detach the client did not request"@
                &&& final(self)@ == old(self)@
            } else if old(self)@.pending.len() > 0 {
                &&& r matches Err(text) && text@
                    == "daemon acknowledged detach while commands were unresolved"@
                &&& final(self)@ == old(self)@
            } else {
                &&& r is Ok
                &&& final(self)@ == (CommandsView {
                    end: Some(AttachmentEnd::Detached),
                    fence: Some(AttachmentUnavailableReason::Closed),
                    ..old(self)@
                })
            },
    {
        if !self.detaching {
            return Err("daemon acknowledged a detach the client did not request");
        }
        if self.pending.len() != 0 {
            return Err("daemon acknowledged detach while commands were unresolved");
        }
        self.end = Some(AttachmentEnd::Detached);
        self.fence = Some(AttachmentUnavailableReason::Closed);
        Ok(())
    }

    /// End the attachment. Every waiting command is handed out: its result is
    /// unknown. `None` if the attachment had already ended.
    pub fn terminate(&mut self) -> (r: Option<Vec<PendingCommand>>)
        requires
            old(self).wf(),
        ensures
            final(self).wf(),
            if old(self)@.end is Some {
                &&& r is None
                &&& final(self)@ == old(self)@
            } else {
                &&& r matches Some(commands) && commands@ == old(self)@.pending
                &&& final(self)@ == old(self)@.terminated()
            },
    {
        if self.end.is_some() {
            return None;
        }
        self.end = Some(AttachmentEnd::Terminated);
        self.fence = Some(AttachmentUnavailableReason::Closed);
        self.pending_inputs = 0;
        self.pending_input_bytes = 0;
        let mut pending: Vec<PendingCommand> = Vec::new();
        pending.append(&mut self.pending);
        assert(pending@ =~= old(self).pending@);
        assert(self.pending@ =~= seq![]);
        Some(pending)
    }
}

} // verus!

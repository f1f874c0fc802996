//! The upgrade handoff manifest that crosses an exec in place, and the check
//! of the image that will read it.
//!
//! The outgoing image writes one line; the incoming image reads that line and
//! nothing else. A manifest that the incoming image could misread is refused.

use vstd::prelude::*;
use vstd::utf8::encode_utf8;

use crate::identity::RunId;
use crate::protocol::{
    AppliedInputRange, CommandDisposition, ControlFailure, ControlReceipt, ControlResult,
    OperationKey, ProtocolError, StopDisposition,
};
use crate::scan::{
    after_first, before_either, lacks, lemma_before_either_at, lemma_first_occurrence, starts_with,
    text_after_first, text_before_either, text_trimmed, trimmed, trimmed_end, trimmed_start,
};
use crate::text::{decimal, decimal_text, joined, joined3, owned};

verus! {

/// The manifest's structural contract.
pub const HANDOFF_SCHEMA: &'static str = "ctxmux.daemon-handoff.v4";

/// Recoverable Input bytes that a manifest may carry for all Runs together.
pub const MAX_HANDOFF_INPUT_REQUEST_BYTES: usize = 134217728;

/// Bytes that a manifest may have in all.
pub const MAX_HANDOFF_MANIFEST_BYTES: u64 = 246065834;

/// Stop diagnostic bytes that a manifest may carry for all Runs together.
pub const MAX_HANDOFF_STOP_DIAGNOSTIC_BYTES: usize = 16777216;

/// Bytes that one diagnostic in a manifest may have.
pub const HANDOFF_INPUT_DIAGNOSTIC_MAX_BYTES: usize = 4096;

/// Milliseconds in which an upgrade target has to state its version.
pub const VERSION_PROBE_TIMEOUT: u64 = 2000;

/// How this binary declares its handoff schema in its version output.
pub open spec fn version_token_text() -> Seq<char> {
    "handoff "@ + HANDOFF_SCHEMA@
}

/// How this binary declares its handoff schema in its version output.
pub fn version_token() -> (r: String)
    ensures
        r@ == version_token_text(),
{
    joined("handoff ", HANDOFF_SCHEMA)
}

/// The handoff schema that a version output declares, if it does.
pub open spec fn declared_schema(text: Seq<char>) -> Option<Seq<char>> {
    match after_first(text, "handoff "@) {
        None => None,
        Some(rest) => match before_either(rest, ')', '\n') {
            None => None,
            Some(schema) => Some(trimmed(schema)),
        },
    }
}

/// Recover the handoff schema from a version output, if it declares one.
pub fn schema_of_version_output<'a>(text: &'a str) -> (r: Option<&'a str>)
    ensures
        match declared_schema(text@) {
            Some(schema) => r matches Some(found) && found@ == schema,
            None => r is None,
        },
{
    match text_after_first(text, "handoff ") {
        None => None,
        Some(rest) => match text_before_either(rest, ')', '\n') {
            None => None,
            Some(schema) => Some(text_trimmed(schema)),
        },
    }
}

/// The version output of this daemon.
pub open spec fn version_line(version: Seq<char>, protocol: u32) -> Seq<char> {
    "ctxmuxd "@ + version + (" (protocol "@ + decimal(protocol as nat) + (", "@
        + version_token_text() + ")"@))
}

/// Write the version output of this daemon.
pub fn version_output(version: &str, protocol: u32) -> (r: String)
    ensures
        r@ == version_line(version@, protocol),
{
    let generation = decimal_text(protocol as u64);
    let token = version_token();
    let ending = joined3(", ", token.as_str(), ")");
    let middle = joined3(" (protocol ", generation.as_str(), ending.as_str());
    joined3("ctxmuxd ", version, middle.as_str())
}

proof fn lemma_decimal_has_no_h(n: nat)
    ensures
        forall|i: int| 0 <= i < decimal(n).len() ==> #[trigger] decimal(n)[i] != 'h',
    decreases n,
{
    if n >= 10 {
        lemma_decimal_has_no_h(n / 10);
        let rest = decimal(n / 10);
        assert forall|i: int| 0 <= i < decimal(n).len() implies #[trigger] decimal(n)[i] != 'h' by {
            if i < rest.len() {
                assert(decimal(n)[i] == rest[i]);
            }
        }
    }
}

proof fn lemma_schema_reads_back(prefix: Seq<char>, suffix: Seq<char>)
    requires
        forall|i: int|
            0 <= i < prefix.len() ==> !#[trigger] starts_with(
                (prefix + version_token_text() + ")"@ + suffix).skip(i),
                "handoff "@,
            ),
    ensures
        declared_schema(prefix + version_token_text() + ")"@ + suffix) == Some(HANDOFF_SCHEMA@),
{
    reveal_strlit("handoff ");
    reveal_strlit("ctxmux.daemon-handoff.v4");
    reveal_strlit(")");
    let text = prefix + version_token_text() + ")"@ + suffix;
    let place = prefix.len() as int;
    let tail = HANDOFF_SCHEMA@ + ")"@ + suffix;
    assert(text.skip(place) =~= "handoff "@ + tail);
    assert(text.skip(place).take(8) =~= "handoff "@);
    lemma_first_occurrence(text, "handoff "@, place);
    assert(text.skip(place + 8) =~= tail);
    lemma_before_either_at(tail, ')', '\n', HANDOFF_SCHEMA@.len() as int);
    assert(tail.take(HANDOFF_SCHEMA@.len() as int) =~= HANDOFF_SCHEMA@);
    assert(trimmed_start(HANDOFF_SCHEMA@) == HANDOFF_SCHEMA@);
    assert(trimmed_end(HANDOFF_SCHEMA@) == HANDOFF_SCHEMA@);
}

/// A daemon reads its own version output back: what it prints declares the
/// schema that it writes, with or without a line end.
pub proof fn law_version_line_declares_the_schema(
    version: Seq<char>,
    protocol: u32,
    suffix: Seq<char>,
)
    requires
        lacks(version + " "@, "handoff "@),
    ensures
        declared_schema(version_line(version, protocol) + suffix) == Some(HANDOFF_SCHEMA@),
{
    reveal_strlit("handoff ");
    reveal_strlit("ctxmuxd ");
    reveal_strlit(" (protocol ");
    reveal_strlit(", ");
    reveal_strlit(")");
    reveal_strlit(" ");
    lemma_decimal_has_no_h(protocol as nat);
    let number = decimal(protocol as nat);
    let prefix = "ctxmuxd "@ + version + (" (protocol "@ + number + ", "@);
    let text = prefix + version_token_text() + ")"@ + suffix;
    assert(version_line(version, protocol) + suffix =~= text);
    let spaced = version + " "@;
    assert forall|i: int| 0 <= i < prefix.len() implies !#[trigger] starts_with(
        text.skip(i),
        "handoff "@,
    ) by {
        if starts_with(text.skip(i), "handoff "@) {
            let piece = text.skip(i).take(8);
            assert(piece[0] == 'h');
            assert(text[i] == 'h');
            assert(8 <= i < 8 + version.len());
            // The pattern would have to lie within the version and the space
            // after it: its only space is its last character, and its only `h`
            // its first.
            let at = i - 8;
            if at + 8 <= spaced.len() {
                assert(spaced.skip(at).take(8) =~= piece);
                assert(starts_with(spaced.skip(at), "handoff "@));
            } else {
                let k = version.len() - at;
                assert(1 <= k < 7);
                assert(piece[k] == text[i + k]);
                assert(text[i + k] == ' ');
                assert("handoff "@[k] == ' ');
            }
        }
    }
    lemma_schema_reads_back(prefix, suffix);
}

/// Why an upgrade target did not state its version.
#[derive(Debug, PartialEq, Eq)]
pub enum ProbeFailure {
    NotRun(String),
    NotAwaited(String),
    TimedOut,
    NotRead(String),
}

/// The detail of a failed probe.
pub open spec fn probe_failure_says(exe: Seq<char>, failure: ProbeFailure) -> Seq<char> {
    match failure {
        ProbeFailure::NotRun(error) => "cannot run "@ + exe + (" --version: "@ + error@),
        ProbeFailure::NotAwaited(error) => "cannot await "@ + exe + (" --version: "@ + error@),
        ProbeFailure::TimedOut => exe + " --version did not answer within 2s"@,
        ProbeFailure::NotRead(error) => "cannot read "@ + exe + (" --version: "@ + error@),
    }
}

/// What a bounded wait for an upgrade target does next.
#[derive(Debug, PartialEq, Eq)]
pub enum ProbeStep {
    /// Read the output.
    Read,
    /// Look again after a short pause.
    Poll,
    /// Kill and reap the target, and fail.
    GiveUp(ProbeFailure),
}

/// Decide the next step of a bounded wait, by whether the target has exited
/// and whether its time is over.
pub fn run_bounded(status: Result<bool, String>, overdue: bool) -> (r: ProbeStep)
    ensures
        match status {
            Ok(true) => r is Read,
            Ok(false) => if overdue {
                r matches ProbeStep::GiveUp(failure) && failure is TimedOut
            } else {
                r is Poll
            },
            Err(error) => r == ProbeStep::GiveUp(ProbeFailure::NotAwaited(error)),
        },
{
    match status {
        Ok(exited) => {
            if exited {
                ProbeStep::Read
            } else if overdue {
                ProbeStep::GiveUp(ProbeFailure::TimedOut)
            } else {
                ProbeStep::Poll
            }
        },
        Err(error) => ProbeStep::GiveUp(ProbeFailure::NotAwaited(error)),
    }
}

/// The text of some bytes as `String::from_utf8_lossy` reads them.
pub uninterp spec fn lossy_text(bytes: Seq<u8>) -> Seq<char>;

/// Read bytes as text by `String::from_utf8_lossy`. Besides the name of its
/// result, bytes that are the UTF-8 form of a text are claimed to be read as
/// that text; what stands for other bytes is not said.
#[verifier::external_body]
fn decode_lossy(bytes: &Vec<u8>) -> (r: String)
    ensures
        r@ == lossy_text(bytes@),
        forall|text: Seq<char>| #[trigger] encode_utf8(text) == bytes@ ==> r@ == text,
{
    String::from_utf8_lossy(bytes).into_owned()
}

/// Whether `r` judges a version output: only a target that declares exactly
/// this image's schema passes.
pub open spec fn judges_version(exe: Seq<char>, output: Seq<char>, r: Result<(), String>) -> bool {
    match declared_schema(output) {
        Some(schema) => if schema == HANDOFF_SCHEMA@ {
            r == Ok::<(), String>(())
        } else {
            r matches Err(message) && message@ == exe + " accepts handoff schema "@ + (schema
                + ", this image writes "@ + HANDOFF_SCHEMA@)
        },
        None => r matches Err(message) && message@ == exe + (
        " declares no handoff schema, so it cannot be verified to accept "@ + HANDOFF_SCHEMA@),
    }
}

/// Judge the version output of an upgrade target.
pub fn judge_version_output(exe: &str, output: &str) -> (r: Result<(), String>)
    ensures
        judges_version(exe@, output@, r),
{
    match schema_of_version_output(output) {
        Some(schema) => {
            let found = owned(schema);
            let mine = owned(HANDOFF_SCHEMA);
            if found.eq(&mine) {
                Ok(())
            } else {
                let ending = joined3(schema, ", this image writes ", HANDOFF_SCHEMA);
                Err(joined3(exe, " accepts handoff schema ", ending.as_str()))
            }
        },
        None => {
            let ending = joined(
                " declares no handoff schema, so it cannot be verified to accept ",
                HANDOFF_SCHEMA,
            );
            Err(joined(exe, ending.as_str()))
        },
    }
}

/// Decide by what it printed for its version whether an upgrade target can read
/// the manifest that this image writes.
pub fn verify_exec_target(exe: &str, probe: Result<Vec<u8>, ProbeFailure>) -> (r: Result<
    (),
    String,
>)
    ensures
        match probe {
            Err(failure) => r matches Err(message) && message@ == probe_failure_says(exe@, failure),
            Ok(output) => {
                &&& judges_version(exe@, lossy_text(output@), r)
                &&& forall|text: Seq<char>| #[trigger]
                    encode_utf8(text) == output@ ==> judges_version(exe@, text, r)
            },
        },
{
    match probe {
        Ok(output) => {
            let text = decode_lossy(&output);
            judge_version_output(exe, text.as_str())
        },
        Err(failure) => Err(
            match failure {
                ProbeFailure::NotRun(error) => {
                    let why = joined(" --version: ", error.as_str());
                    joined3("cannot run ", exe, why.as_str())
                },
                ProbeFailure::NotAwaited(error) => {
                    let why = joined(" --version: ", error.as_str());
                    joined3("cannot await ", exe, why.as_str())
                },
                ProbeFailure::TimedOut => joined(exe, " --version did not answer within 2s"),
                ProbeFailure::NotRead(error) => {
                    let why = joined(" --version: ", error.as_str());
                    joined3("cannot read ", exe, why.as_str())
                },
            },
        ),
    }
}

/// Bytes of a text in a manifest.
pub open spec fn text_size(text: Seq<char>) -> int {
    encode_utf8(text).len() as usize as int
}

/// An Input whose result a caller may still ask for.
#[derive(Debug, PartialEq, Eq)]
pub struct HandoffInputOperation {
    pub key: OperationKey,
    pub expected_byte: u64,
    pub data: Vec<u8>,
    pub range: AppliedInputRange,
}

/// Recoverable Input of one Run.
#[derive(Debug, PartialEq, Eq)]
pub struct HandoffInputState {
    pub applied_input_bytes: u64,
    pub input_failure: Option<ProtocolError>,
    pub operations: Vec<HandoffInputOperation>,
}

/// Payload bytes of some operations.
pub open spec fn operation_bytes(operations: Seq<HandoffInputOperation>) -> int
    decreases operations.len(),
{
    if operations.len() == 0 {
        0
    } else {
        operation_bytes(operations.drop_last()) + operations.last().data@.len()
    }
}

/// A sum that stops at the largest size.
pub open spec fn capped_size(sum: int) -> int {
    if sum > usize::MAX {
        usize::MAX as int
    } else {
        sum
    }
}

/// Whether an operation was applied exactly where it was expected.
pub open spec fn range_is_exact(operation: HandoffInputOperation) -> bool {
    &&& operation.range.start_byte == operation.expected_byte
    &&& operation.expected_byte + operation.data@.len() == operation.range.end_byte
}

/// Why the operation at `place` makes a ledger unusable, where it does.
pub open spec fn operation_defect(
    operations: Seq<HandoffInputOperation>,
    applied: u64,
    place: int,
) -> Option<Seq<char>> {
    let operation = operations[place];
    if operation.key.defect is Some {
        Some("invalid handoff Input key: "@ + operation.key.defect->0@)
    } else if exists|k: int| 0 <= k < place && (#[trigger] operations[k]).key@ == operation.key@ {
        Some("handoff Input ledger contains a duplicate key"@)
    } else if !range_is_exact(operation) {
        Some("handoff Input range does not match its request"@)
    } else if operation.range.end_byte > applied {
        Some("handoff Input range exceeds the applied cursor"@)
    } else {
        None
    }
}

/// Why one of the first `count` operations makes a ledger unusable.
pub open spec fn operations_defect(
    operations: Seq<HandoffInputOperation>,
    applied: u64,
    count: int,
) -> Option<Seq<char>>
    decreases count,
{
    if count <= 0 {
        None
    } else {
        match operations_defect(operations, applied, count - 1) {
            Some(message) => Some(message),
            None => operation_defect(operations, applied, count - 1),
        }
    }
}

/// Why recoverable Input cannot be adopted, where it cannot.
pub open spec fn input_defect(state: HandoffInputState) -> Option<Seq<char>> {
    if state.input_failure matches Some(failure) && text_size(failure.message@)
        > HANDOFF_INPUT_DIAGNOSTIC_MAX_BYTES {
        Some("handoff Input diagnostic exceeds its bounded size"@)
    } else {
        operations_defect(
            state.operations@,
            state.applied_input_bytes,
            state.operations@.len() as int,
        )
    }
}

pub proof fn lemma_operation_bytes_nonnegative(operations: Seq<HandoffInputOperation>)
    ensures
        operation_bytes(operations) >= 0,
    decreases operations.len(),
{
    if operations.len() > 0 {
        lemma_operation_bytes_nonnegative(operations.drop_last());
    }
}

pub proof fn lemma_operation_bytes_first(operations: Seq<HandoffInputOperation>)
    requires
        operations.len() > 0,
    ensures
        operation_bytes(operations) == operations[0].data@.len() + operation_bytes(
            operations.drop_first(),
        ),
    decreases operations.len(),
{
    reveal_with_fuel(operation_bytes, 2);
    if operations.len() > 1 {
        lemma_operation_bytes_first(operations.drop_last());
        assert(operations.drop_last().drop_first() =~= operations.drop_first().drop_last());
        assert(operations.drop_first().last() == operations.last());
    }
}

impl HandoffInputState {
    /// Recoverable Input without history.
    pub fn empty() -> (r: HandoffInputState)
        ensures
            r.applied_input_bytes == 0,
            r.input_failure is None,
            r.operations@.len() == 0,
    {
        HandoffInputState {
            applied_input_bytes: 0,
            input_failure: None,
            operations: Vec::new(),
        }
    }

    /// Payload bytes that this Run retains.
    pub fn retained_request_bytes(&self) -> (r: usize)
        ensures
            r == capped_size(operation_bytes(self.operations@)),
    {
        let ghost operations = self.operations@;
        let mut total: usize = 0;
        let mut i: usize = 0;
        assert(operations.take(0) =~= seq![]);
        while i < self.operations.len()
            invariant
                operations == self.operations@,
                i <= operations.len(),
                total == capped_size(operation_bytes(operations.take(i as int))),
            decreases operations.len() - i,
        {
            proof {
                assert(operations.take(i + 1).drop_last() =~= operations.take(i as int));
                lemma_operation_bytes_nonnegative(operations.take(i as int));
            }
            total = match total.checked_add(self.operations[i].data.len()) {
                Some(sum) => sum,
                None => usize::MAX,
            };
            i = i + 1;
        }
        assert(operations.take(i as int) =~= operations);
        total
    }

    /// Drop the oldest operation and return its payload bytes; none if there
    /// is no operation.
    pub fn shed_oldest_operation(&mut self) -> (r: usize)
        ensures
            final(self).applied_input_bytes == old(self).applied_input_bytes,
            final(self).input_failure == old(self).input_failure,
            if old(self).operations@.len() == 0 {
                r == 0 && final(self).operations@ == old(self).operations@
            } else {
                r == old(self).operations@[0].data@.len() && final(self).operations@
                    == old(self).operations@.drop_first()
            },
    {
        if self.operations.len() == 0 {
            return 0;
        }
        let ghost before = self.operations@;
        let oldest = self.operations.remove(0);
        assert(self.operations@ =~= before.drop_first());
        oldest.data.len()
    }

    /// Check that this Input can be adopted.
    pub fn validate(&self) -> (r: Result<(), String>)
        ensures
            match input_defect(*self) {
                Some(defect) => r matches Err(message) && message@ == defect,
                None => r is Ok,
            },
    {
        if let Some(failure) = &self.input_failure {
            if failure.message.as_str().len() > HANDOFF_INPUT_DIAGNOSTIC_MAX_BYTES {
                return Err(owned("handoff Input diagnostic exceeds its bounded size"));
            }
        }
        let ghost operations = self.operations@;
        let mut i: usize = 0;
        while i < self.operations.len()
            invariant
                operations == self.operations@,
                i <= operations.len(),
                operations_defect(operations, self.applied_input_bytes, i as int) is None,
                input_defect(*self) == operations_defect(
                    operations,
                    self.applied_input_bytes,
                    operations.len() as int,
                ),
            decreases operations.len() - i,
        {
            let defect = self.first_defect(i);
            if let Some(message) = defect {
                proof {
                    lemma_first_defect_stays(
                        operations,
                        self.applied_input_bytes,
                        i + 1,
                        operations.len() as int,
                    );
                }
                return Err(message);
            }
            i = i + 1;
        }
        Ok(())
    }

    fn first_defect(&self, place: usize) -> (r: Option<String>)
        requires
            place < self.operations@.len(),
        ensures
            match operation_defect(self.operations@, self.applied_input_bytes, place as int) {
                Some(defect) => r matches Some(message) && message@ == defect,
                None => r is None,
            },
    {
        let operation = &self.operations[place];
        if let Some(defect) = &operation.key.defect {
            return Some(joined("invalid handoff Input key: ", defect.as_str()));
        }
        let mut k: usize = 0;
        while k < place
            invariant
                k <= place < self.operations@.len(),
                *operation == self.operations@[place as int],
                operation.key.defect is None,
                forall|j: int| 0 <= j < k ==> (#[trigger] self.operations@[j]).key@
                    != operation.key@,
            decreases place - k,
        {
            if self.operations[k].key.same(&operation.key) {
                assert(self.operations@[k as int].key@ == operation.key@);
                return Some(owned("handoff Input ledger contains a duplicate key"));
            }
            k = k + 1;
        }
        let exact_end = match operation.expected_byte.checked_add(operation.data.len() as u64) {
            Some(end) => end == operation.range.end_byte,
            None => false,
        };
        if operation.range.start_byte != operation.expected_byte || !exact_end {
            return Some(owned("handoff Input range does not match its request"));
        }
        if operation.range.end_byte > self.applied_input_bytes {
            return Some(owned("handoff Input range exceeds the applied cursor"));
        }
        None
    }
}

proof fn lemma_first_defect_stays(
    operations: Seq<HandoffInputOperation>,
    applied: u64,
    count: int,
    more: int,
)
    requires
        0 <= count <= more,
        operations_defect(operations, applied, count) is Some,
    ensures
        operations_defect(operations, applied, more) == operations_defect(
            operations,
            applied,
            count,
        ),
    decreases more - count,
{
    if count < more {
        lemma_first_defect_stays(operations, applied, count, more - 1);
    }
}

/// Settled Stop of one Run.
#[derive(Debug, PartialEq, Eq)]
pub struct HandoffStopOperation {
    pub run_id: RunId,
    pub operation_key: OperationKey,
    pub outcome: HandoffStopOutcome,
}

/// How a settled Stop ended.
#[derive(Debug, PartialEq, Eq)]
pub enum HandoffStopOutcome {
    Accepted { disposition: StopDisposition },
    Unknown { failure: ControlFailure },
}

/// Why a settled Stop cannot be adopted, where it cannot.
pub open spec fn stop_defect(operation: HandoffStopOperation) -> Option<Seq<char>> {
    if operation.operation_key.defect is Some {
        Some("invalid handoff native Stop key: "@ + operation.operation_key.defect->0@)
    } else {
        match operation.outcome {
            HandoffStopOutcome::Accepted { .. } => None,
            HandoffStopOutcome::Unknown { failure } => if failure.disposition
                != CommandDisposition::Unknown {
                Some("handoff native Stop failure has a non-unknown disposition"@)
            } else if text_size(failure.error.message@) > HANDOFF_INPUT_DIAGNOSTIC_MAX_BYTES {
                Some("handoff native Stop diagnostic exceeds its bounded size"@)
            } else {
                None
            },
        }
    }
}

/// Diagnostic bytes of one settled Stop.
pub open spec fn stop_bytes(operation: HandoffStopOperation) -> int {
    match operation.outcome {
        HandoffStopOutcome::Accepted { .. } => 0,
        HandoffStopOutcome::Unknown { failure } => text_size(failure.error.message@),
    }
}

/// Diagnostic bytes of some settled Stops.
pub open spec fn stop_total(operations: Seq<HandoffStopOperation>) -> int
    decreases operations.len(),
{
    if operations.len() == 0 {
        0
    } else {
        stop_total(operations.drop_last()) + stop_bytes(operations.last())
    }
}

impl HandoffStopOperation {
    /// Check that this Stop can be adopted.
    pub fn validate(&self) -> (r: Result<(), String>)
        ensures
            match stop_defect(*self) {
                Some(defect) => r matches Err(message) && message@ == defect,
                None => r is Ok,
            },
    {
        if let Some(defect) = &self.operation_key.defect {
            return Err(joined("invalid handoff native Stop key: ", defect.as_str()));
        }
        if let HandoffStopOutcome::Unknown { failure } = &self.outcome {
            if failure.disposition != CommandDisposition::Unknown {
                return Err(owned("handoff native Stop failure has a non-unknown disposition"));
            }
            if failure.error.message.as_str().len() > HANDOFF_INPUT_DIAGNOSTIC_MAX_BYTES {
                return Err(owned("handoff native Stop diagnostic exceeds its bounded size"));
            }
        }
        Ok(())
    }

    /// Diagnostic bytes that this Stop carries.
    pub fn diagnostic_bytes(&self) -> (r: usize)
        ensures
            r == stop_bytes(*self),
    {
        match &self.outcome {
            HandoffStopOutcome::Unknown { failure } => failure.error.message.as_str().len(),
            HandoffStopOutcome::Accepted { .. } => 0,
        }
    }
}

impl HandoffStopOutcome {
    /// The control result that this outcome stands for.
    pub fn into_result(self) -> (r: ControlResult)
        ensures
            r == (match self {
                HandoffStopOutcome::Accepted { disposition } => Ok(
                    ControlReceipt::Stop { disposition },
                ),
                HandoffStopOutcome::Unknown { failure } => Err(failure),
            }),
    {
        match self {
            HandoffStopOutcome::Accepted { disposition } => Ok(
                ControlReceipt::Stop { disposition },
            ),
            HandoffStopOutcome::Unknown { failure } => Err(failure),
        }
    }
}

/// One live Run that crosses the exec.
#[derive(Debug, PartialEq, Eq)]
pub struct HandoffRun {
    pub run_id: RunId,
    pub child_pid: u32,
    pub master_fd: i32,
    pub input_state: HandoffInputState,
}

/// Everything that the incoming image adopts.
#[derive(Debug, PartialEq, Eq)]
pub struct HandoffManifest {
    pub schema: String,
    pub epoch: String,
    pub listener_fd: i32,
    pub state_lock_fd: i32,
    pub runs: Vec<HandoffRun>,
    pub stop_operations: Vec<HandoffStopOperation>,
}

/// What kind of failure a handoff met.
#[derive(Debug, Clone, Copy, PartialEq, Eq, Structural)]
pub enum HandoffErrorKind {
    /// The inherited file could not be read.
    Unreadable,
    /// What was read is not a manifest that can be adopted.
    InvalidData,
}

/// Why a handoff cannot be adopted.
#[derive(Debug, PartialEq, Eq)]
pub struct HandoffError {
    pub kind: HandoffErrorKind,
    pub message: String,
}

impl HandoffError {
    /// Whether this says that a manifest is unusable, with this detail.
    pub open spec fn is_invalid(&self, detail: Seq<char>) -> bool {
        self.kind == HandoffErrorKind::InvalidData && self.message@ == detail
    }

    /// The manifest is unusable.
    pub fn invalid(message: String) -> (r: HandoffError)
        ensures
            r.is_invalid(message@),
    {
        HandoffError { kind: HandoffErrorKind::InvalidData, message }
    }
}

/// Payload bytes of all Runs.
pub open spec fn input_total(runs: Seq<HandoffRun>) -> int
    decreases runs.len(),
{
    if runs.len() == 0 {
        0
    } else {
        input_total(runs.drop_last()) + operation_bytes(runs.last().input_state.operations@)
    }
}

/// What remains of one Run's operations when `total` bytes have to come down
/// to `budget`: the oldest leave first, until the total fits or none is left.
pub open spec fn shed_operations(
    operations: Seq<HandoffInputOperation>,
    total: int,
    budget: int,
) -> Seq<HandoffInputOperation>
    decreases operations.len(),
{
    if total <= budget || operations.len() == 0 {
        operations
    } else {
        shed_operations(operations.drop_first(), total - operations[0].data@.len(), budget)
    }
}

/// The total after one Run was shed.
pub open spec fn total_after(
    operations: Seq<HandoffInputOperation>,
    total: int,
    budget: int,
) -> int {
    total - (operation_bytes(operations) - operation_bytes(
        shed_operations(operations, total, budget),
    ))
}

/// The total after the first `count` Runs were shed in order.
pub open spec fn total_after_runs(
    runs: Seq<HandoffRun>,
    total: int,
    budget: int,
    count: int,
) -> int
    decreases count,
{
    if count <= 0 {
        total
    } else {
        total_after(
            runs[count - 1].input_state.operations@,
            total_after_runs(runs, total, budget, count - 1),
            budget,
        )
    }
}

/// The operations of the Run at `place` after all Runs were shed in order.
pub open spec fn kept_operations(runs: Seq<HandoffRun>, budget: int, place: int) -> Seq<
    HandoffInputOperation,
> {
    shed_operations(
        runs[place].input_state.operations@,
        total_after_runs(runs, input_total(runs), budget, place),
        budget,
    )
}

/// Whether two Runs differ in their operations at most.
pub open spec fn same_but_operations(a: HandoffRun, b: HandoffRun) -> bool {
    &&& a.run_id == b.run_id
    &&& a.child_pid == b.child_pid
    &&& a.master_fd == b.master_fd
    &&& a.input_state.applied_input_bytes == b.input_state.applied_input_bytes
    &&& a.input_state.input_failure == b.input_state.input_failure
}

/// What remains of settled Stops when `total` diagnostic bytes have to come
/// down to `budget`: the oldest leave first.
pub open spec fn shed_stops(
    operations: Seq<HandoffStopOperation>,
    total: int,
    budget: int,
) -> Seq<HandoffStopOperation>
    decreases operations.len(),
{
    if total <= budget || operations.len() == 0 {
        operations
    } else {
        shed_stops(operations.drop_first(), total - stop_bytes(operations[0]), budget)
    }
}

pub proof fn lemma_shed_operations_is_a_suffix(
    operations: Seq<HandoffInputOperation>,
    total: int,
    budget: int,
) -> (removed: int)
    requires
        total >= operation_bytes(operations),
    ensures
        0 <= removed <= operations.len(),
        shed_operations(operations, total, budget) == operations.skip(removed),
        0 <= operation_bytes(shed_operations(operations, total, budget)) <= operation_bytes(
            operations,
        ),
        total_after(operations, total, budget) <= budget || operation_bytes(
            shed_operations(operations, total, budget),
        ) == 0,
    decreases operations.len(),
{
    lemma_operation_bytes_nonnegative(operations);
    if total <= budget || operations.len() == 0 {
        assert(operations.skip(0) =~= operations);
        0
    } else {
        let rest = operations.drop_first();
        lemma_operation_bytes_first(operations);
        lemma_operation_bytes_nonnegative(rest);
        assert(rest =~= operations.skip(1));
        let removed = lemma_shed_operations_is_a_suffix(
            rest,
            total - operations[0].data@.len(),
            budget,
        );
        assert(rest.skip(removed) =~= operations.skip(removed + 1));
        removed + 1
    }
}

pub proof fn lemma_input_total_bounds(runs: Seq<HandoffRun>, count: int)
    requires
        0 <= count <= runs.len(),
    ensures
        0 <= input_total(runs.take(count)) <= input_total(runs),
    decreases runs.len(),
{
    if count == runs.len() {
        assert(runs.take(count) =~= runs);
        if runs.len() > 0 {
            lemma_input_total_bounds(runs.drop_last(), runs.len() - 1);
            assert(runs.drop_last().take(runs.len() - 1) =~= runs.drop_last());
            lemma_operation_bytes_nonnegative(runs.last().input_state.operations@);
        }
    } else {
        lemma_input_total_bounds(runs.drop_last(), count);
        assert(runs.drop_last().take(count) =~= runs.take(count));
        lemma_operation_bytes_nonnegative(runs.last().input_state.operations@);
    }
}

/// After the first `count` Runs were shed, the running total is at least what
/// the others still have.
pub proof fn lemma_running_total(runs: Seq<HandoffRun>, budget: int, count: int)
    requires
        0 <= count <= runs.len(),
    ensures
        total_after_runs(runs, input_total(runs), budget, count) >= input_total(runs) - input_total(
            runs.take(count),
        ),
        total_after_runs(runs, input_total(runs), budget, count) <= input_total(runs),
    decreases count,
{
    lemma_input_total_bounds(runs, count);
    if count == 0 {
        assert(runs.take(0) =~= seq![]);
    } else {
        lemma_running_total(runs, budget, count - 1);
        assert(runs.take(count).drop_last() =~= runs.take(count - 1));
        lemma_input_total_bounds(runs, count - 1);
        let operations = runs[count - 1].input_state.operations@;
        let before = total_after_runs(runs, input_total(runs), budget, count - 1);
        assert(before >= operation_bytes(operations));
        let removed = lemma_shed_operations_is_a_suffix(operations, before, budget);
    }
}

/// Shedding brings recoverable Input within any budget, however it is spread
/// over the Runs.
pub proof fn law_shed_input_fits_the_budget(runs: Seq<HandoffRun>, budget: int)
    requires
        budget >= 0,
    ensures
        total_after_runs(runs, input_total(runs), budget, runs.len() as int) <= budget,
{
    lemma_shed_leaves_only_unshed(runs, budget, runs.len() as int);
    assert(runs.take(runs.len() as int) =~= runs);
}

proof fn lemma_shed_leaves_only_unshed(runs: Seq<HandoffRun>, budget: int, count: int)
    requires
        budget >= 0,
        0 <= count <= runs.len(),
    ensures
        total_after_runs(runs, input_total(runs), budget, count) <= budget || total_after_runs(
            runs,
            input_total(runs),
            budget,
            count,
        ) == input_total(runs) - input_total(runs.take(count)),
    decreases count,
{
    if count == 0 {
        assert(runs.take(0) =~= seq![]);
    } else {
        lemma_shed_leaves_only_unshed(runs, budget, count - 1);
        lemma_running_total(runs, budget, count - 1);
        assert(runs.take(count).drop_last() =~= runs.take(count - 1));
        lemma_input_total_bounds(runs, count);
        let operations = runs[count - 1].input_state.operations@;
        let before = total_after_runs(runs, input_total(runs), budget, count - 1);
        let removed = lemma_shed_operations_is_a_suffix(operations, before, budget);
    }
}

pub proof fn lemma_suffix_of_valid_operations(
    operations: Seq<HandoffInputOperation>,
    applied: u64,
    removed: int,
    count: int,
)
    requires
        0 <= removed <= operations.len(),
        0 <= count <= operations.len() - removed,
        operations_defect(operations, applied, operations.len() as int) is None,
    ensures
        operations_defect(operations.skip(removed), applied, count) is None,
    decreases count,
{
    if count > 0 {
        lemma_suffix_of_valid_operations(operations, applied, removed, count - 1);
        lemma_no_defect_at(operations, applied, operations.len() as int, removed + count - 1);
        let rest = operations.skip(removed);
        let place = count - 1;
        assert(rest[place] == operations[removed + place]);
        if exists|k: int| 0 <= k < place && (#[trigger] rest[k]).key@ == rest[place].key@ {
            let k = choose|k: int|
                0 <= k < place && (#[trigger] rest[k]).key@ == rest[place].key@;
            assert(operations[removed + k].key@ == operations[removed + place].key@);
        }
    }
}

proof fn lemma_no_defect_at(
    operations: Seq<HandoffInputOperation>,
    applied: u64,
    count: int,
    place: int,
)
    requires
        0 <= place < count,
        operations_defect(operations, applied, count) is None,
    ensures
        operation_defect(operations, applied, place) is None,
    decreases count,
{
    if place < count - 1 {
        lemma_no_defect_at(operations, applied, count - 1, place);
    }
}

/// Shedding leaves a ledger that can still be adopted.
pub proof fn law_shed_ledger_stays_valid(
    before: HandoffInputState,
    after: HandoffInputState,
    total: int,
    budget: int,
)
    requires
        input_defect(before) is None,
        total >= operation_bytes(before.operations@),
        after.applied_input_bytes == before.applied_input_bytes,
        after.input_failure == before.input_failure,
        after.operations@ == shed_operations(before.operations@, total, budget),
    ensures
        input_defect(after) is None,
{
    let removed = lemma_shed_operations_is_a_suffix(before.operations@, total, budget);
    lemma_suffix_of_valid_operations(
        before.operations@,
        before.applied_input_bytes,
        removed,
        after.operations@.len() as int,
    );
}

pub proof fn lemma_stop_total_first(operations: Seq<HandoffStopOperation>)
    requires
        operations.len() > 0,
    ensures
        stop_total(operations) == stop_bytes(operations[0]) + stop_total(operations.drop_first()),
    decreases operations.len(),
{
    reveal_with_fuel(stop_total, 2);
    if operations.len() > 1 {
        lemma_stop_total_first(operations.drop_last());
        assert(operations.drop_last().drop_first() =~= operations.drop_first().drop_last());
        assert(operations.drop_first().last() == operations.last());
    }
}

pub proof fn lemma_stop_total_nonnegative(operations: Seq<HandoffStopOperation>)
    ensures
        stop_total(operations) >= 0,
    decreases operations.len(),
{
    if operations.len() > 0 {
        lemma_stop_total_nonnegative(operations.drop_last());
    }
}

/// Shedding brings Stop diagnostics within any budget and drops the oldest
/// Stops only.
pub proof fn law_shed_stops_fit_the_budget(
    operations: Seq<HandoffStopOperation>,
    budget: int,
) -> (removed: int)
    requires
        budget >= 0,
    ensures
        0 <= removed <= operations.len(),
        shed_stops(operations, stop_total(operations), budget) == operations.skip(removed),
        stop_total(shed_stops(operations, stop_total(operations), budget)) <= budget,
    decreases operations.len(),
{
    lemma_stop_total_nonnegative(operations);
    if stop_total(operations) <= budget || operations.len() == 0 {
        assert(operations.skip(0) =~= operations);
        0
    } else {
        lemma_stop_total_first(operations);
        let removed = law_shed_stops_fit_the_budget(operations.drop_first(), budget);
        assert(operations.drop_first().skip(removed) =~= operations.skip(removed + 1));
        removed + 1
    }
}

} // verus!
